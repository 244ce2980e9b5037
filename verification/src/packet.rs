//! Wire format of the packets that the server exchanges with its clients.
//!
//! Every outgoing packet starts with a two-byte client time and a one-byte
//! packet type; integers are written most significant byte first.

use vstd::prelude::*;
use bytes::BufMut;
use bytes::BytesMut;
use vstd::string::StringSliceAdditionalSpecFns;

verus! {

// ---------------------------------------------------------------------------
// The output buffer
// ---------------------------------------------------------------------------

/// `bytes::BytesMut`, the growable byte buffer that packets are written into.
#[verifier::external_type_specification]
#[verifier::external_body]
pub struct ExBytesMut(BytesMut);

/// The bytes that a `BytesMut` holds, in order.
pub uninterp spec fn buffer_bytes(buf: BytesMut) -> Seq<u8>;

/// `BytesMut::with_capacity`: the documentation promises an empty buffer
/// ("contains no data, even though there is capacity"). It allocates through
/// `Vec::with_capacity`, which panics beyond `isize::MAX` bytes.
#[verifier::external_body]
fn new_buffer(capacity: usize) -> (buf: BytesMut)
    requires
        capacity <= isize::MAX,
    ensures
        buffer_bytes(buf) == Seq::<u8>::empty(),
{
    BytesMut::with_capacity(capacity)
}

/// An empty buffer to write a packet into, with room for `capacity` bytes
/// reserved.
pub fn empty_buffer(capacity: usize) -> (buf: BytesMut)
    requires
        capacity <= isize::MAX,
    ensures
        buffer_bytes(buf) == Seq::<u8>::empty(),
{
    new_buffer(capacity)
}

/// `BufMut::put_u8` on a `BytesMut`: appends one byte (through
/// `put_slice`). Growing the buffer past `isize::MAX` bytes panics, which
/// `requires` rules out.
#[verifier::external_body]
fn buffer_put_u8(buf: &mut BytesMut, value: u8)
    requires
        buffer_bytes(*old(buf)).len() + 1 <= isize::MAX,
    ensures
        buffer_bytes(*final(buf)) == buffer_bytes(*old(buf)).push(value),
{
    buf.put_u8(value)
}

/// `BufMut::put_slice` on a `BytesMut`: appends the bytes of `src` in order
/// (`BytesMut::extend_from_slice`). Its capacity grows with it; the total
/// stays within `isize::MAX` by `requires`.
#[verifier::external_body]
fn buffer_put_slice(buf: &mut BytesMut, src: &[u8])
    requires
        buffer_bytes(*old(buf)).len() + src@.len() <= isize::MAX,
    ensures
        buffer_bytes(*final(buf)) == buffer_bytes(*old(buf)) + src@,
{
    buf.put_slice(src)
}

/// `<[u8]>::to_vec` on the bytes of a `BytesMut` (through its `Deref`):
/// a vector with the same bytes.
#[verifier::external_body]
fn buffer_to_vec(buf: &BytesMut) -> (v: Vec<u8>)
    ensures
        v@ == buffer_bytes(*buf),
{
    buf.to_vec()
}

// ---------------------------------------------------------------------------
// Integer and string encodings
// ---------------------------------------------------------------------------

/// Room for `n` more bytes in a buffer that holds `len`.
pub open spec fn fits(len: nat, n: nat) -> bool {
    len + n <= isize::MAX
}

/// A 16-bit value, most significant byte first.
pub open spec fn be16(v: u16) -> Seq<u8> {
    seq![(v / 256) as u8, (v % 256) as u8]
}

/// The low 24 bits of a value, most significant byte first.
pub open spec fn be24(v: u32) -> Seq<u8> {
    seq![((v / 65536) % 256) as u8, ((v / 256) % 256) as u8, (v % 256) as u8]
}

/// A string as its length byte (the byte length, modulo 256) followed by its
/// UTF-8 bytes.
pub open spec fn length_prefixed(bytes: Seq<u8>) -> Seq<u8> {
    seq![(bytes.len() % 256) as u8] + bytes
}

/// Reading the two bytes of `be16(v)` as a big-endian number gives `v` back.
pub proof fn lemma_be16_decodes(v: u16)
    ensures
        be16(v).len() == 2,
        be16(v)[0] * 256 + be16(v)[1] == v,
{
}

/// Reading the three bytes of `be24(v)` as a big-endian number gives the low
/// 24 bits of `v` back.
pub proof fn lemma_be24_decodes(v: u32)
    ensures
        be24(v).len() == 3,
        be24(v)[0] * 65536 + be24(v)[1] * 256 + be24(v)[2] == v % 16777216,
{
    let a = v / 65536;
    let b = v / 256;
    assert(v == b * 256 + v % 256);
    assert(b == a * 256 + b % 256);
    assert(a % 256 * 65536 + b % 256 * 256 + v % 256 == v % 16777216) by (nonlinear_arith)
        requires
            v == b * 256 + v % 256,
            b == a * 256 + b % 256,
            0 <= v % 256 < 256,
            0 <= b % 256 < 256,
            a == v / 65536,
    {
        assert(v == a * 65536 + (b % 256) * 256 + v % 256);
    }
}

/// Appends one byte.
pub fn write_u8(buf: &mut BytesMut, val: u8)
    requires
        fits(buffer_bytes(*old(buf)).len(), 1),
    ensures
        buffer_bytes(*final(buf)) == buffer_bytes(*old(buf)).push(val),
{
    buffer_put_u8(buf, val);
}

/// Appends a 16-bit value, most significant byte first.
pub fn write_u16(buf: &mut BytesMut, val: u16)
    requires
        fits(buffer_bytes(*old(buf)).len(), 2),
    ensures
        buffer_bytes(*final(buf)) == buffer_bytes(*old(buf)) + be16(val),
{
    let hi = (val >> 8) as u8;
    let lo = val as u8;
    assert(hi == val / 256 && lo == val % 256) by (bit_vector)
        requires
            hi == (val >> 8) as u8,
            lo == val as u8,
    ;
    buffer_put_u8(buf, hi);
    buffer_put_u8(buf, lo);
    assert(buffer_bytes(*buf) =~= buffer_bytes(*old(buf)) + be16(val));
}

/// Appends the low 24 bits of a value, most significant byte first.
pub fn write_u24(buf: &mut BytesMut, val: u32)
    requires
        fits(buffer_bytes(*old(buf)).len(), 3),
    ensures
        buffer_bytes(*final(buf)) == buffer_bytes(*old(buf)) + be24(val),
{
    let b0 = (val >> 16) as u8;
    let b1 = (val >> 8) as u8;
    let b2 = val as u8;
    assert(b0 == (val / 65536) % 256 && b1 == (val / 256) % 256 && b2 == val % 256) by (bit_vector)
        requires
            b0 == (val >> 16) as u8,
            b1 == (val >> 8) as u8,
            b2 == val as u8,
    ;
    buffer_put_u8(buf, b0);
    buffer_put_u8(buf, b1);
    buffer_put_u8(buf, b2);
    assert(buffer_bytes(*buf) =~= buffer_bytes(*old(buf)) + be24(val));
}

/// Appends a string: its byte length (modulo 256) and then its UTF-8 bytes.
pub fn write_string(buf: &mut BytesMut, s: &str)
    requires
        fits(buffer_bytes(*old(buf)).len(), s.spec_bytes().len() + 1),
    ensures
        buffer_bytes(*final(buf)) == buffer_bytes(*old(buf)) + length_prefixed(s.spec_bytes()),
{
    let bytes = s.as_bytes();
    let n = bytes.len();
    let len_byte = (n % 256) as u8;
    buffer_put_u8(buf, len_byte);
    buffer_put_slice(buf, bytes);
    assert(buffer_bytes(*buf) =~= buffer_bytes(*old(buf)) + length_prefixed(s.spec_bytes()));
}


// ---------------------------------------------------------------------------
// Packet types
// ---------------------------------------------------------------------------

/// Kinds of packet that a client sends, told apart by their first byte.
#[derive(Debug, Clone, Copy, PartialEq, Eq, Structural)]
pub enum InPacketType {
    /// A wanted heading in units of pi/125 (first bytes 0 to 250).
    Angle(u8),
    Ping,
    RotLeft,
    RotRight,
    StartAcc,
    StopAcc,
    UsernameSkin,
    VictoryMessage,
}

/// Kinds of packet that the server sends.
#[derive(Debug, Clone, Copy, PartialEq, Eq, Structural)]
pub enum OutPacketType {
    Init,
    RotCCWWangSp,
    RotCCWAngWang,
    RotCCWAng,
    RotCWAngWangSp,
    RotCWAngWang,
    SetFullness,
    RemPart,
    Move,
    MoveRel,
    Inc,
    IncRel,
    Leaderboard,
    End,
    AddSector,
    RemSector,
    Highscore,
    Pong,
    Minimap,
    Snake,
    SetFood,
    SpawnFood,
    AddFood,
    EatFood,
}

impl OutPacketType {
    /// The type byte that stands for this kind on the wire.
    pub open spec fn spec_code(self) -> u8 {
        match self {
            OutPacketType::Init => 97,  // 'a'
            OutPacketType::RotCCWWangSp => 69,  // 'E'
            OutPacketType::RotCCWAngWang => 51,  // '3'
            OutPacketType::RotCCWAng => 101,  // 'e'
            OutPacketType::RotCWAngWangSp => 52,  // '4'
            OutPacketType::RotCWAngWang => 53,  // '5'
            OutPacketType::SetFullness => 104,  // 'h'
            OutPacketType::RemPart => 114,  // 'r'
            OutPacketType::Move => 103,  // 'g'
            OutPacketType::MoveRel => 71,  // 'G'
            OutPacketType::Inc => 110,  // 'n'
            OutPacketType::IncRel => 78,  // 'N'
            OutPacketType::Leaderboard => 108,  // 'l'
            OutPacketType::End => 118,  // 'v'
            OutPacketType::AddSector => 87,  // 'W'
            OutPacketType::RemSector => 119,  // 'w'
            OutPacketType::Highscore => 109,  // 'm'
            OutPacketType::Pong => 112,  // 'p'
            OutPacketType::Minimap => 117,  // 'u'
            OutPacketType::Snake => 115,  // 's'
            OutPacketType::SetFood => 70,  // 'F'
            OutPacketType::SpawnFood => 98,  // 'b'
            OutPacketType::AddFood => 102,  // 'f'
            OutPacketType::EatFood => 99,  // 'c'
        }
    }

    /// The type byte that stands for this kind on the wire.
    pub fn code(&self) -> (c: u8)
        ensures
            c == self.spec_code(),
    {
        match self {
            OutPacketType::Init => 97,  // 'a'
            OutPacketType::RotCCWWangSp => 69,  // 'E'
            OutPacketType::RotCCWAngWang => 51,  // '3'
            OutPacketType::RotCCWAng => 101,  // 'e'
            OutPacketType::RotCWAngWangSp => 52,  // '4'
            OutPacketType::RotCWAngWang => 53,  // '5'
            OutPacketType::SetFullness => 104,  // 'h'
            OutPacketType::RemPart => 114,  // 'r'
            OutPacketType::Move => 103,  // 'g'
            OutPacketType::MoveRel => 71,  // 'G'
            OutPacketType::Inc => 110,  // 'n'
            OutPacketType::IncRel => 78,  // 'N'
            OutPacketType::Leaderboard => 108,  // 'l'
            OutPacketType::End => 118,  // 'v'
            OutPacketType::AddSector => 87,  // 'W'
            OutPacketType::RemSector => 119,  // 'w'
            OutPacketType::Highscore => 109,  // 'm'
            OutPacketType::Pong => 112,  // 'p'
            OutPacketType::Minimap => 117,  // 'u'
            OutPacketType::Snake => 115,  // 's'
            OutPacketType::SetFood => 70,  // 'F'
            OutPacketType::SpawnFood => 98,  // 'b'
            OutPacketType::AddFood => 102,  // 'f'
            OutPacketType::EatFood => 99,  // 'c'
        }
    }
}

/// The kind of client packet that a first byte announces.
pub open spec fn spec_in_packet_type(byte: u8) -> InPacketType {
    if byte == 108 {
        InPacketType::RotLeft
    } else if byte == 114 {
        InPacketType::RotRight
    } else if byte == 115 {
        InPacketType::UsernameSkin
    } else if byte == 251 {
        InPacketType::Ping
    } else if byte == 253 {
        InPacketType::StartAcc
    } else if byte == 254 {
        InPacketType::StopAcc
    } else if byte == 255 {
        InPacketType::VictoryMessage
    } else if byte <= 250 {
        InPacketType::Angle(byte)
    } else {
        InPacketType::Angle(0)
    }
}

/// Parses the kind of an incoming packet from its first byte.
pub fn parse_in_packet_type(byte: u8) -> (t: InPacketType)
    ensures
        t == spec_in_packet_type(byte),
{
    match byte {
        108 => InPacketType::RotLeft,
        114 => InPacketType::RotRight,
        115 => InPacketType::UsernameSkin,
        251 => InPacketType::Ping,
        253 => InPacketType::StartAcc,
        254 => InPacketType::StopAcc,
        255 => InPacketType::VictoryMessage,
        0..=250 => InPacketType::Angle(byte),
        _ => InPacketType::Angle(0),
    }
}

// ---------------------------------------------------------------------------
// Outgoing packets
// ---------------------------------------------------------------------------

/// What every outgoing packet starts with.
pub struct PacketBase {
    pub client_time: u16,
    pub packet_type: OutPacketType,
}

impl PacketBase {
    /// Its bytes: the client time, then the type byte.
    pub open spec fn spec_bytes(self) -> Seq<u8> {
        be16(self.client_time).push(self.packet_type.spec_code())
    }

    /// A header of the given kind with client time zero.
    pub fn new(packet_type: OutPacketType) -> (b: Self)
        ensures
            b.client_time == 0,
            b.packet_type == packet_type,
    {
        PacketBase { client_time: 0, packet_type }
    }

    /// Appends the header to `buf`.
    pub fn encode(&self, buf: &mut BytesMut)
        requires
            fits(buffer_bytes(*old(buf)).len(), 3),
        ensures
            buffer_bytes(*final(buf)) == buffer_bytes(*old(buf)) + self.spec_bytes(),
    {
        write_u16(buf, self.client_time);
        let code = self.packet_type.code();
        write_u8(buf, code);
        assert(buffer_bytes(*buf) =~= buffer_bytes(*old(buf)) + self.spec_bytes());
    }
}

/// Init packet (`'a'`): the world's geometry and the client's motion
/// parameters. The fixed-point fields hold the values as they go on the
/// wire: `spangdv` times 10, `nsp1` to `nsp3` times 100, and the angular
/// speeds and the tail coefficient times 1000.
pub struct PacketInit {
    pub base: PacketBase,
    pub game_radius: u32,
    pub max_snake_parts: u16,
    pub sector_size: u16,
    pub sector_count_along_edge: u16,
    pub spangdv: u8,
    pub nsp1: u16,
    pub nsp2: u16,
    pub nsp3: u16,
    pub snake_ang_speed: u16,
    pub prey_ang_speed: u16,
    pub snake_tail_k: u16,
    pub protocol_version: u8,
}

impl PacketInit {
    /// Its bytes, field by field in declaration order.
    pub open spec fn spec_bytes(self) -> Seq<u8> {
        self.base.spec_bytes() + be24(self.game_radius) + be16(self.max_snake_parts) + be16(
            self.sector_size,
        ) + be16(self.sector_count_along_edge) + seq![self.spangdv] + be16(self.nsp1) + be16(
            self.nsp2,
        ) + be16(self.nsp3) + be16(self.snake_ang_speed) + be16(self.prey_ang_speed) + be16(
            self.snake_tail_k,
        ) + seq![self.protocol_version]
    }

    /// Encodes the packet.
    pub fn encode(&self) -> (out: Vec<u8>)
        ensures
            out@ == self.spec_bytes(),
            out@.len() == 26,
    {
        let mut buf = new_buffer(26);
        self.base.encode(&mut buf);
        write_u24(&mut buf, self.game_radius);
        write_u16(&mut buf, self.max_snake_parts);
        write_u16(&mut buf, self.sector_size);
        write_u16(&mut buf, self.sector_count_along_edge);
        write_u8(&mut buf, self.spangdv);
        write_u16(&mut buf, self.nsp1);
        write_u16(&mut buf, self.nsp2);
        write_u16(&mut buf, self.nsp3);
        write_u16(&mut buf, self.snake_ang_speed);
        write_u16(&mut buf, self.prey_ang_speed);
        write_u16(&mut buf, self.snake_tail_k);
        write_u8(&mut buf, self.protocol_version);
        assert(buffer_bytes(buf) =~= self.spec_bytes());
        buffer_to_vec(&buf)
    }
}

impl Default for PacketInit {
    /// The init packet of this server: its world constants and motion
    /// parameters 4.8, 5.39, 0.4, 14, 0.033, 0.028 and 0.43 in fixed point.
    fn default() -> (p: Self)
        ensures
            p.base.client_time == 0,
            p.base.packet_type == OutPacketType::Init,
            p.game_radius == crate::config::WorldConfig::GAME_RADIUS,
            p.max_snake_parts == crate::config::WorldConfig::MAX_SNAKE_PARTS,
            p.sector_size == crate::config::WorldConfig::SECTOR_SIZE,
            p.sector_count_along_edge == crate::config::WorldConfig::SECTOR_COUNT_ALONG_EDGE,
            p.spangdv == 48,
            p.nsp1 == 539,
            p.nsp2 == 40,
            p.nsp3 == 1400,
            p.snake_ang_speed == 33,
            p.prey_ang_speed == 28,
            p.snake_tail_k == 430,
            p.protocol_version == crate::config::WorldConfig::PROTOCOL_VERSION,
    {
        PacketInit {
            base: PacketBase::new(OutPacketType::Init),
            game_radius: crate::config::WorldConfig::GAME_RADIUS as u32,
            max_snake_parts: crate::config::WorldConfig::MAX_SNAKE_PARTS,
            sector_size: crate::config::WorldConfig::SECTOR_SIZE,
            sector_count_along_edge: crate::config::WorldConfig::SECTOR_COUNT_ALONG_EDGE,
            spangdv: 48,
            nsp1: 539,
            nsp2: 40,
            nsp3: 1400,
            snake_ang_speed: 33,
            prey_ang_speed: 28,
            snake_tail_k: 430,
            protocol_version: crate::config::WorldConfig::PROTOCOL_VERSION,
        }
    }
}

/// Pong packet (`'p'`): the answer to a ping.
pub struct PacketPong {
    pub base: PacketBase,
}

impl PacketPong {
    /// A pong with client time zero.
    pub fn new() -> (p: Self)
        ensures
            p.base.client_time == 0,
            p.base.packet_type == OutPacketType::Pong,
    {
        PacketPong { base: PacketBase::new(OutPacketType::Pong) }
    }

    /// Encodes the packet: the header alone.
    pub fn encode(&self) -> (out: Vec<u8>)
        ensures
            out@ == self.base.spec_bytes(),
    {
        let mut buf = new_buffer(3);
        self.base.encode(&mut buf);
        assert(buffer_bytes(buf) =~= self.base.spec_bytes());
        buffer_to_vec(&buf)
    }
}

/// Move packet (`'g'`): a snake's head position.
pub struct PacketMove {
    pub base: PacketBase,
    pub snake_id: u16,
    pub x: u16,
    pub y: u16,
}

impl PacketMove {
    /// Its bytes: header, snake id, x, y.
    pub open spec fn spec_bytes(self) -> Seq<u8> {
        self.base.spec_bytes() + be16(self.snake_id) + be16(self.x) + be16(self.y)
    }

    /// A move packet for the snake `snake_id` whose head stands at `(x, y)`.
    pub fn new(snake_id: u16, x: u16, y: u16) -> (p: Self)
        ensures
            p.base.client_time == 0,
            p.base.packet_type == OutPacketType::Move,
            p.snake_id == snake_id,
            p.x == x,
            p.y == y,
    {
        PacketMove { base: PacketBase::new(OutPacketType::Move), snake_id, x, y }
    }

    /// Encodes the packet.
    pub fn encode(&self) -> (out: Vec<u8>)
        ensures
            out@ == self.spec_bytes(),
            out@.len() == 9,
    {
        let mut buf = new_buffer(9);
        self.base.encode(&mut buf);
        write_u16(&mut buf, self.snake_id);
        write_u16(&mut buf, self.x);
        write_u16(&mut buf, self.y);
        assert(buffer_bytes(buf) =~= self.spec_bytes());
        buffer_to_vec(&buf)
    }
}

/// Remove-snake packet (`'s'` with a status byte): a snake left the view
/// (status 0) or died (status 1).
pub struct PacketRemoveSnake {
    pub base: PacketBase,
    pub snake_id: u16,
    pub status: u8,
}

impl PacketRemoveSnake {
    /// Its bytes: header, snake id, status.
    pub open spec fn spec_bytes(self) -> Seq<u8> {
        (self.base.spec_bytes() + be16(self.snake_id)).push(self.status)
    }

    /// A removal of `snake_id`, with status 1 where it died and 0 otherwise.
    pub fn new(snake_id: u16, died: bool) -> (p: Self)
        ensures
            p.base.client_time == 0,
            p.base.packet_type == OutPacketType::Snake,
            p.snake_id == snake_id,
            p.status == (if died { 1u8 } else { 0u8 }),
    {
        PacketRemoveSnake {
            base: PacketBase::new(OutPacketType::Snake),
            snake_id,
            status: if died { 1 } else { 0 },
        }
    }

    /// Encodes the packet.
    pub fn encode(&self) -> (out: Vec<u8>)
        ensures
            out@ == self.spec_bytes(),
            out@.len() == 6,
    {
        let mut buf = new_buffer(6);
        self.base.encode(&mut buf);
        write_u16(&mut buf, self.snake_id);
        write_u8(&mut buf, self.status);
        assert(buffer_bytes(buf) =~= self.spec_bytes());
        buffer_to_vec(&buf)
    }
}

/// End packet (`'v'`): the game is over for this client.
pub struct PacketEnd {
    pub base: PacketBase,
    pub status: u8,
}

impl PacketEnd {
    /// Its bytes: header, status.
    pub open spec fn spec_bytes(self) -> Seq<u8> {
        self.base.spec_bytes().push(self.status)
    }

    /// The end packet sent on death (status 1).
    pub fn death() -> (p: Self)
        ensures
            p.base.client_time == 0,
            p.base.packet_type == OutPacketType::End,
            p.status == 1,
    {
        PacketEnd { base: PacketBase::new(OutPacketType::End), status: 1 }
    }

    /// Encodes the packet.
    pub fn encode(&self) -> (out: Vec<u8>)
        ensures
            out@ == self.spec_bytes(),
            out@.len() == 4,
    {
        let mut buf = new_buffer(4);
        self.base.encode(&mut buf);
        write_u8(&mut buf, self.status);
        assert(buffer_bytes(buf) =~= self.spec_bytes());
        buffer_to_vec(&buf)
    }
}


/// The offsets of a snake's body parts as they go on the wire: two bytes
/// per part.
pub open spec fn offset_bytes(parts: Seq<(u8, u8)>) -> Seq<u8>
    decreases parts.len(),
{
    if parts.len() == 0 {
        Seq::empty()
    } else {
        offset_bytes(parts.drop_last()).push(parts.last().0).push(parts.last().1)
    }
}

/// Add-snake packet (`'s'`): everything a client needs to draw a snake.
/// The fields hold the values as they go on the wire: `angle` in units of
/// 2*pi/0xFFFFFF, `speed` as speed/32 times 1000, `fullness` scaled to
/// 0xFFFFFF, positions times 5, and each body part as its offset from the
/// previous one (towards the head) times 2 plus 127. `tail` is `None` for a
/// snake without parts, which sends no body.
pub struct PacketAddSnake {
    pub base: PacketBase,
    pub snake_id: u16,
    pub angle: u32,
    pub speed: u16,
    pub fullness: u32,
    pub skin: u8,
    pub head_x: u32,
    pub head_y: u32,
    pub name: String,
    pub tail: Option<(u32, u32)>,
    pub parts: Vec<(u8, u8)>,
}

impl PacketAddSnake {
    /// The bytes of the body: the tail position and then the part offsets,
    /// or nothing for a snake without parts.
    pub open spec fn spec_body_bytes(self) -> Seq<u8> {
        match self.tail {
            Some((tx, ty)) => be24(tx) + be24(ty) + offset_bytes(self.parts@),
            None => Seq::empty(),
        }
    }

    /// Its bytes: header, id, heading, an unused zero byte, heading again,
    /// speed, fullness, skin, head position, name, body.
    pub open spec fn spec_bytes(self) -> Seq<u8> {
        self.base.spec_bytes() + be16(self.snake_id) + be24(self.angle) + seq![0u8] + be24(
            self.angle,
        ) + be16(self.speed) + be24(self.fullness) + seq![self.skin] + be24(self.head_x) + be24(
            self.head_y,
        ) + length_prefixed(vstd::utf8::encode_utf8(self.name@)) + self.spec_body_bytes()
    }

    /// Encodes the packet.
    pub fn encode(&self) -> (out: Vec<u8>)
        requires
            fits(32, vstd::utf8::encode_utf8(self.name@).len() + 2 * self.parts@.len()),
        ensures
            out@ == self.spec_bytes(),
    {
        let mut buf = new_buffer(256);
        self.base.encode(&mut buf);
        write_u16(&mut buf, self.snake_id);
        write_u24(&mut buf, self.angle);
        write_u8(&mut buf, 0);
        write_u24(&mut buf, self.angle);
        write_u16(&mut buf, self.speed);
        write_u24(&mut buf, self.fullness);
        write_u8(&mut buf, self.skin);
        write_u24(&mut buf, self.head_x);
        write_u24(&mut buf, self.head_y);
        write_string(&mut buf, self.name.as_str());
        let ghost head = buffer_bytes(buf);
        assert(head =~= self.spec_bytes().subrange(0, head.len() as int));
        match self.tail {
            Some((tx, ty)) => {
                write_u24(&mut buf, tx);
                write_u24(&mut buf, ty);
                let ghost start = buffer_bytes(buf);
                let n = self.parts.len();
                for i in 0..n
                    invariant
                        n == self.parts@.len(),
                        start.len() == head.len() + 6,
                        buffer_bytes(buf) == start + offset_bytes(self.parts@.take(i as int)),
                        head.len() + 6 <= 32 + vstd::utf8::encode_utf8(self.name@).len(),
                        fits(32, vstd::utf8::encode_utf8(self.name@).len() + 2 * self.parts@.len()),
                {
                    proof {
                        lemma_offset_bytes_len(self.parts@.take(i as int));
                    }
                    let (dx, dy) = self.parts[i];
                    write_u8(&mut buf, dx);
                    write_u8(&mut buf, dy);
                    assert(self.parts@.take(i + 1).drop_last() =~= self.parts@.take(i as int));
                }
                assert(self.parts@.take(n as int) =~= self.parts@);
            },
            None => {},
        }
        assert(buffer_bytes(buf) =~= self.spec_bytes());
        buffer_to_vec(&buf)
    }
}

/// `offset_bytes` holds two bytes per part.
proof fn lemma_offset_bytes_len(parts: Seq<(u8, u8)>)
    ensures
        offset_bytes(parts).len() == 2 * parts.len(),
    decreases parts.len(),
{
    if parts.len() > 0 {
        lemma_offset_bytes_len(parts.drop_last());
    }
}

/// The fields that a rotation packet of kind `t` carries, as
/// `(heading, wanted heading, speed)`: `'e'` the heading; `'3'` and `'5'` the
/// heading and the wanted heading; `'E'` the wanted heading and the speed;
/// `'4'` all three. Other kinds carry none of them.
pub open spec fn rotation_fields(t: OutPacketType) -> (bool, bool, bool) {
    match t {
        OutPacketType::RotCCWAng => (true, false, false),
        OutPacketType::RotCCWAngWang => (true, true, false),
        OutPacketType::RotCWAngWang => (true, true, false),
        OutPacketType::RotCCWWangSp => (false, true, true),
        OutPacketType::RotCWAngWangSp => (true, true, true),
        _ => (false, false, false),
    }
}

/// How many of the three fields a triple of flags marks.
pub open spec fn field_count(f: (bool, bool, bool)) -> int {
    (if f.0 { 1int } else { 0int }) + (if f.1 { 1int } else { 0int }) + (if f.2 { 1int } else { 0int })
}

/// The kind of rotation packet for the fields present (wanted heading,
/// heading, speed) and the sense of the turn: the heading, alone or with the
/// speed, goes as `'e'`; the wanted heading with the speed as `'E'`; the
/// heading with the wanted heading as `'5'` when the turn is clockwise and
/// `'3'` otherwise; all three as `'4'` when clockwise and `'e'` otherwise.
/// None where no kind can be filled from the fields present: the wanted
/// heading alone, the speed alone, or no field.
pub open spec fn spec_rotation_type(has_wang: bool, has_ang: bool, has_speed: bool, clockwise: bool) -> Option<
    OutPacketType,
> {
    if !has_wang && has_ang {
        Some(OutPacketType::RotCCWAng)
    } else if has_wang && !has_ang && has_speed {
        Some(OutPacketType::RotCCWWangSp)
    } else if has_wang && has_ang && !has_speed {
        if clockwise {
            Some(OutPacketType::RotCWAngWang)
        } else {
            Some(OutPacketType::RotCCWAngWang)
        }
    } else if has_wang && has_ang && has_speed {
        if clockwise {
            Some(OutPacketType::RotCWAngWangSp)
        } else {
            Some(OutPacketType::RotCCWAng)
        }
    } else {
        None
    }
}

/// The bytes of an optional one-byte field: the byte, or nothing.
pub open spec fn optional_byte(b: Option<u8>) -> Seq<u8> {
    match b {
        Some(v) => seq![v],
        None => Seq::empty(),
    }
}

/// The bytes of a field that a packet kind may carry: the field's byte where
/// the kind carries it, else nothing.
pub open spec fn sent_byte(sent: bool, b: Option<u8>) -> Seq<u8> {
    if sent {
        optional_byte(b)
    } else {
        Seq::empty()
    }
}

/// Rotation packet (`'e'`, `'3'`, `'E'`, `'4'` or `'5'`): a snake's heading,
/// wanted heading and speed, each optional. The angles hold their wire value
/// (in units of 2*pi/256), the speed its wire value (speed times 18).
/// `clockwise` says whether the shorter turn from the heading to the wanted
/// heading goes clockwise; it picks the packet kind when both are present.
pub struct PacketRotation {
    pub base: PacketBase,
    pub snake_id: u16,
    pub ang: Option<u8>,
    pub wang: Option<u8>,
    pub speed: Option<u8>,
    pub clockwise: bool,
}

impl PacketRotation {
    /// The packet kind that its fields call for, if any.
    pub open spec fn spec_packet_type(self) -> Option<OutPacketType> {
        spec_rotation_type(self.wang is Some, self.ang is Some, self.speed is Some, self.clockwise)
    }

    /// Its bytes: a header of the kind that the fields call for, with this
    /// packet's client time, then the snake id and the fields that the kind
    /// carries (heading, wanted heading, speed, in that order). Nothing where
    /// the fields call for no kind.
    pub open spec fn spec_bytes(self) -> Seq<u8> {
        match self.spec_packet_type() {
            Some(t) => PacketBase { client_time: self.base.client_time, packet_type: t }.spec_bytes()
                + be16(self.snake_id) + sent_byte(rotation_fields(t).0, self.ang) + sent_byte(
                rotation_fields(t).1,
                self.wang,
            ) + sent_byte(rotation_fields(t).2, self.speed),
            None => Seq::empty(),
        }
    }

    /// A rotation packet for `snake_id` with no field set yet.
    pub fn new(snake_id: u16) -> (p: Self)
        ensures
            p.base.client_time == 0,
            p.base.packet_type == OutPacketType::RotCCWAng,
            p.snake_id == snake_id,
            p.ang is None,
            p.wang is None,
            p.speed is None,
            !p.clockwise,
    {
        PacketRotation {
            base: PacketBase::new(OutPacketType::RotCCWAng),
            snake_id,
            ang: None,
            wang: None,
            speed: None,
            clockwise: false,
        }
    }

    /// The packet kind that its fields call for, if any.
    fn determine_packet_type(&self) -> (t: Option<OutPacketType>)
        ensures
            t == self.spec_packet_type(),
    {
        match (self.wang, self.ang, self.speed) {
            (None, Some(_), _) => Some(OutPacketType::RotCCWAng),
            (Some(_), None, Some(_)) => Some(OutPacketType::RotCCWWangSp),
            (Some(_), Some(_), None) => {
                if self.clockwise {
                    Some(OutPacketType::RotCWAngWang)
                } else {
                    Some(OutPacketType::RotCCWAngWang)
                }
            },
            (Some(_), Some(_), Some(_)) => {
                if self.clockwise {
                    Some(OutPacketType::RotCWAngWangSp)
                } else {
                    Some(OutPacketType::RotCCWAng)
                }
            },
            _ => None,
        }
    }

    /// Encodes the packet: empty where its fields call for no kind.
    pub fn encode(&self) -> (out: Vec<u8>)
        ensures
            out@ == self.spec_bytes(),
    {
        let packet_type = match self.determine_packet_type() {
            Some(t) => t,
            None => {
                return Vec::new();
            },
        };
        let (ang_sent, wang_sent, speed_sent) = rotation_fields_of(packet_type);
        let mut buf = new_buffer(8);
        let mut base = PacketBase::new(packet_type);
        base.client_time = self.base.client_time;
        base.encode(&mut buf);
        write_u16(&mut buf, self.snake_id);
        if ang_sent {
            if let Some(a) = self.ang {
                write_u8(&mut buf, a);
            }
        }
        if wang_sent {
            if let Some(w) = self.wang {
                write_u8(&mut buf, w);
            }
        }
        if speed_sent {
            if let Some(s) = self.speed {
                write_u8(&mut buf, s);
            }
        }
        assert(buffer_bytes(buf) =~= self.spec_bytes());
        buffer_to_vec(&buf)
    }
}

/// The fields that a rotation packet of kind `t` carries.
fn rotation_fields_of(t: OutPacketType) -> (f: (bool, bool, bool))
    ensures
        f == rotation_fields(t),
{
    match t {
        OutPacketType::RotCCWAng => (true, false, false),
        OutPacketType::RotCCWAngWang => (true, true, false),
        OutPacketType::RotCWAngWang => (true, true, false),
        OutPacketType::RotCCWWangSp => (false, true, true),
        OutPacketType::RotCWAngWangSp => (true, true, true),
        _ => (false, false, false),
    }
}

/// A rotation packet's kind carries only fields that are set, and the packet
/// is its header, the snake id and exactly those fields, one byte each; where
/// the fields set and the sense of the turn are those of a row of the kinds'
/// table (heading; heading and wanted heading; wanted heading and speed; all
/// three when clockwise), that row's kind is sent, with every field set.
pub proof fn lemma_rotation_kind_carries_its_fields(p: PacketRotation)
    ensures
        match p.spec_packet_type() {
            Some(t) => {
                &&& rotation_fields(t).0 ==> p.ang is Some
                &&& rotation_fields(t).1 ==> p.wang is Some
                &&& rotation_fields(t).2 ==> p.speed is Some
                &&& p.spec_bytes().len() == 5 + field_count(rotation_fields(t))
                &&& p.spec_bytes()[2] == t.spec_code()
            },
            None => p.spec_bytes().len() == 0,
        },
        p.ang is Some && p.wang is None && p.speed is None ==> p.spec_packet_type() == Some(
            OutPacketType::RotCCWAng,
        ),
        p.ang is Some && p.wang is Some && p.speed is None ==> p.spec_packet_type() == Some(
            if p.clockwise {
                OutPacketType::RotCWAngWang
            } else {
                OutPacketType::RotCCWAngWang
            },
        ),
        p.ang is None && p.wang is Some && p.speed is Some ==> p.spec_packet_type() == Some(
            OutPacketType::RotCCWWangSp,
        ),
        p.ang is Some && p.wang is Some && p.speed is Some && p.clockwise ==> p.spec_packet_type()
            == Some(OutPacketType::RotCWAngWangSp),
        p.spec_packet_type() matches Some(t) && field_count(rotation_fields(t)) == 3 ==> p.clockwise,
{
}

/// Every outgoing header reads back as the client time (big-endian) and
/// the type byte of its kind.
pub proof fn lemma_header_reads_back(b: PacketBase)
    ensures
        b.spec_bytes().len() == 3,
        b.spec_bytes()[0] * 256 + b.spec_bytes()[1] == b.client_time,
        b.spec_bytes()[2] == b.packet_type.spec_code(),
{
    lemma_be16_decodes(b.client_time);
}

/// A length-prefixed string is its byte count (modulo 256) and then its
/// bytes, unchanged.
pub proof fn lemma_length_prefixed_reads_back(bytes: Seq<u8>)
    ensures
        length_prefixed(bytes).len() == bytes.len() + 1,
        length_prefixed(bytes)[0] == bytes.len() % 256,
        length_prefixed(bytes).subrange(1, bytes.len() as int + 1) == bytes,
{
    assert(length_prefixed(bytes).subrange(1, bytes.len() as int + 1) =~= bytes);
}

/// The move packet reads back as its header, the snake id and the head's
/// `x` and `y`, each a big-endian 16-bit number: nothing is clipped.
pub proof fn lemma_move_packet_reads_back(p: PacketMove)
    ensures
        p.spec_bytes().len() == 9,
        p.spec_bytes()[0] * 256 + p.spec_bytes()[1] == p.base.client_time,
        p.spec_bytes()[2] == p.base.packet_type.spec_code(),
        p.spec_bytes()[3] * 256 + p.spec_bytes()[4] == p.snake_id,
        p.spec_bytes()[5] * 256 + p.spec_bytes()[6] == p.x,
        p.spec_bytes()[7] * 256 + p.spec_bytes()[8] == p.y,
{
    lemma_be16_decodes(p.base.client_time);
    lemma_be16_decodes(p.snake_id);
    lemma_be16_decodes(p.x);
    lemma_be16_decodes(p.y);
}

/// The remove-snake packet reads back as its header, the snake id
/// (big-endian) and the status byte.
pub proof fn lemma_remove_snake_packet_reads_back(p: PacketRemoveSnake)
    ensures
        p.spec_bytes().len() == 6,
        p.spec_bytes()[0] * 256 + p.spec_bytes()[1] == p.base.client_time,
        p.spec_bytes()[2] == p.base.packet_type.spec_code(),
        p.spec_bytes()[3] * 256 + p.spec_bytes()[4] == p.snake_id,
        p.spec_bytes()[5] == p.status,
{
    lemma_be16_decodes(p.base.client_time);
    lemma_be16_decodes(p.snake_id);
}

/// The end packet reads back as its header and the status byte.
pub proof fn lemma_end_packet_reads_back(p: PacketEnd)
    ensures
        p.spec_bytes().len() == 4,
        p.spec_bytes()[0] * 256 + p.spec_bytes()[1] == p.base.client_time,
        p.spec_bytes()[2] == p.base.packet_type.spec_code(),
        p.spec_bytes()[3] == p.status,
{
    lemma_be16_decodes(p.base.client_time);
}

/// The init packet reads back field by field in declaration order: the
/// world radius (its low 24 bits) and the 16-bit fields big-endian, the
/// single-byte fields as they are.
pub proof fn lemma_init_packet_reads_back(p: PacketInit)
    ensures
        ({
            let b = p.spec_bytes();
            &&& b.len() == 26
            &&& b[0] * 256 + b[1] == p.base.client_time
            &&& b[2] == p.base.packet_type.spec_code()
            &&& b[3] * 65536 + b[4] * 256 + b[5] == p.game_radius % 16777216
            &&& b[6] * 256 + b[7] == p.max_snake_parts
            &&& b[8] * 256 + b[9] == p.sector_size
            &&& b[10] * 256 + b[11] == p.sector_count_along_edge
            &&& b[12] == p.spangdv
            &&& b[13] * 256 + b[14] == p.nsp1
            &&& b[15] * 256 + b[16] == p.nsp2
            &&& b[17] * 256 + b[18] == p.nsp3
            &&& b[19] * 256 + b[20] == p.snake_ang_speed
            &&& b[21] * 256 + b[22] == p.prey_ang_speed
            &&& b[23] * 256 + b[24] == p.snake_tail_k
            &&& b[25] == p.protocol_version
        }),
{
    lemma_be16_decodes(p.base.client_time);
    lemma_be24_decodes(p.game_radius);
    lemma_be16_decodes(p.max_snake_parts);
    lemma_be16_decodes(p.sector_size);
    lemma_be16_decodes(p.sector_count_along_edge);
    lemma_be16_decodes(p.nsp1);
    lemma_be16_decodes(p.nsp2);
    lemma_be16_decodes(p.nsp3);
    lemma_be16_decodes(p.snake_ang_speed);
    lemma_be16_decodes(p.prey_ang_speed);
    lemma_be16_decodes(p.snake_tail_k);
}

/// The part offsets read back in order, two bytes per part.
proof fn lemma_offset_bytes_index(parts: Seq<(u8, u8)>, k: int)
    requires
        0 <= k < parts.len(),
    ensures
        offset_bytes(parts).len() == 2 * parts.len(),
        offset_bytes(parts)[2 * k] == parts[k].0,
        offset_bytes(parts)[2 * k + 1] == parts[k].1,
    decreases parts.len(),
{
    lemma_offset_bytes_len(parts);
    lemma_offset_bytes_len(parts.drop_last());
    if k < parts.len() - 1 {
        lemma_offset_bytes_index(parts.drop_last(), k);
    }
}

/// The add-snake packet reads back field by field: header, snake id
/// (big-endian), the heading's low 24 bits, a zero byte, the heading again,
/// the speed, the fullness, the skin, the head position, then the name as
/// its UTF-8 byte length (modulo 256) followed by exactly those UTF-8
/// bytes, then, for a snake with a body, the tail position and each part's
/// two offset bytes in order.
pub proof fn lemma_add_snake_packet_reads_back(p: PacketAddSnake)
    ensures
        ({
            let b = p.spec_bytes();
            let name = vstd::utf8::encode_utf8(p.name@);
            let n = name.len() as int;
            &&& b[0] * 256 + b[1] == p.base.client_time
            &&& b[2] == p.base.packet_type.spec_code()
            &&& b[3] * 256 + b[4] == p.snake_id
            &&& b[5] * 65536 + b[6] * 256 + b[7] == p.angle % 16777216
            &&& b[8] == 0
            &&& b[9] * 65536 + b[10] * 256 + b[11] == p.angle % 16777216
            &&& b[12] * 256 + b[13] == p.speed
            &&& b[14] * 65536 + b[15] * 256 + b[16] == p.fullness % 16777216
            &&& b[17] == p.skin
            &&& b[18] * 65536 + b[19] * 256 + b[20] == p.head_x % 16777216
            &&& b[21] * 65536 + b[22] * 256 + b[23] == p.head_y % 16777216
            &&& b[24] == n % 256
            &&& b.subrange(25, 25 + n) == name
            &&& p.tail is None ==> b.len() == 25 + n
            &&& p.tail matches Some((tx, ty)) ==> {
                &&& b.len() == 31 + n + 2 * p.parts@.len()
                &&& b[25 + n] * 65536 + b[26 + n] * 256 + b[27 + n] == tx % 16777216
                &&& b[28 + n] * 65536 + b[29 + n] * 256 + b[30 + n] == ty % 16777216
                &&& forall|k: int|
                    0 <= k < p.parts@.len() ==> b[31 + n + 2 * k] == (#[trigger] p.parts@[k]).0 && b[32 + n
                        + 2 * k] == p.parts@[k].1
            }
        }),
{
    let b = p.spec_bytes();
    let name = vstd::utf8::encode_utf8(p.name@);
    let n = name.len() as int;
    let h = p.base.spec_bytes() + be16(p.snake_id) + be24(p.angle) + seq![0u8] + be24(p.angle) + be16(
        p.speed,
    ) + be24(p.fullness) + seq![p.skin] + be24(p.head_x) + be24(p.head_y);
    lemma_be16_decodes(p.base.client_time);
    lemma_be16_decodes(p.snake_id);
    lemma_be24_decodes(p.angle);
    lemma_be16_decodes(p.speed);
    lemma_be24_decodes(p.fullness);
    lemma_be24_decodes(p.head_x);
    lemma_be24_decodes(p.head_y);
    lemma_offset_bytes_len(p.parts@);
    assert(h.len() == 24);
    assert(b == h + length_prefixed(name) + p.spec_body_bytes());
    assert(b.subrange(25, 25 + n) =~= name);
    match p.tail {
        Some((tx, ty)) => {
            lemma_be24_decodes(tx);
            lemma_be24_decodes(ty);
            assert forall|k: int| 0 <= k < p.parts@.len() implies b[31 + n + 2 * k] == (
            #[trigger] p.parts@[k]).0 && b[32 + n + 2 * k] == p.parts@[k].1 by {
                lemma_offset_bytes_index(p.parts@, k);
            }
        },
        None => {},
    }
}

/// No two kinds of outgoing packet share a type byte, so a client tells
/// every kind apart by its third byte.
pub proof fn lemma_type_bytes_tell_kinds_apart(a: OutPacketType, b: OutPacketType)
    ensures
        a.spec_code() == b.spec_code() ==> a == b,
{
}

/// How a client packet's first byte is read: the bytes `'l'`, `'r'` and
/// `'s'` (108, 114, 115) ask to turn left, turn right and set the name and
/// skin; 251 is a ping, 253 and 254 start and stop the boost, 255 is a
/// victory message; every other byte up to 250 is a wanted heading of that
/// many units, and 252 reads as heading 0.
pub proof fn lemma_in_packet_type_reads_first_byte(byte: u8)
    ensures
        byte == 108 <==> spec_in_packet_type(byte) == InPacketType::RotLeft,
        byte == 114 <==> spec_in_packet_type(byte) == InPacketType::RotRight,
        byte == 115 <==> spec_in_packet_type(byte) == InPacketType::UsernameSkin,
        byte == 251 <==> spec_in_packet_type(byte) == InPacketType::Ping,
        byte == 253 <==> spec_in_packet_type(byte) == InPacketType::StartAcc,
        byte == 254 <==> spec_in_packet_type(byte) == InPacketType::StopAcc,
        byte == 255 <==> spec_in_packet_type(byte) == InPacketType::VictoryMessage,
        byte <= 250 && byte != 108 && byte != 114 && byte != 115 ==> spec_in_packet_type(byte)
            == InPacketType::Angle(byte),
        byte == 252 ==> spec_in_packet_type(byte) == InPacketType::Angle(0),
{
}

/// A rotation packet reads back as its header, the snake id (big-endian)
/// and, one byte each in this order, the heading, wanted heading and speed
/// that its kind carries, each the packet's own field.
pub proof fn lemma_rotation_packet_reads_back(p: PacketRotation)
    ensures
        p.spec_packet_type() matches Some(t) ==> {
            let b = p.spec_bytes();
            let (a, w, s) = rotation_fields(t);
            let iw = if a { 6int } else { 5int };
            let is = if w { iw + 1 } else { iw };
            &&& b[0] * 256 + b[1] == p.base.client_time
            &&& b[2] == t.spec_code()
            &&& b[3] * 256 + b[4] == p.snake_id
            &&& a ==> p.ang == Some(b[5])
            &&& w ==> p.wang == Some(b[iw])
            &&& s ==> p.speed == Some(b[is])
            &&& b.len() == if s { is + 1 } else { is }
        },
{
    lemma_be16_decodes(p.base.client_time);
    lemma_be16_decodes(p.snake_id);
}

} // verus!
