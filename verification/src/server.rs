//! What the server makes of the packets that a client sends, and which
//! updates it broadcasts.

use vstd::prelude::*;
use crate::packet::{parse_in_packet_type, spec_in_packet_type, InPacketType};
use crate::snake::{CHANGE_ANGLE, CHANGE_SPEED};

verus! {

/// The text that `String::from_utf8_lossy` makes of some bytes.
pub uninterp spec fn lossy_utf8(bytes: Seq<u8>) -> Seq<char>;

/// `String::from_utf8_lossy(bytes).to_string()`: the bytes read as UTF-8,
/// with each invalid sequence replaced by U+FFFD. The result is named by
/// `lossy_utf8`; of valid UTF-8 the documentation promises the text that
/// the bytes encode. What the replacement gives for invalid input is left
/// unsaid.
#[verifier::external_body]
fn utf8_lossy_string(bytes: &[u8]) -> (s: String)
    ensures
        s@ == lossy_utf8(bytes@),
        vstd::utf8::valid_utf8(bytes@) ==> s@ == vstd::utf8::decode_utf8(bytes@),
{
    String::from_utf8_lossy(bytes).to_string()
}

/// What a client's packet asks of the server.
#[derive(Debug, Clone)]
pub enum ClientCommand {
    /// Steer towards this heading, in units of pi/125.
    SetWantedAngle(u8),
    /// Answer with a pong.
    Ping,
    /// Start boosting.
    StartAcceleration,
    /// Stop boosting.
    StopAcceleration,
    /// Set the protocol version, skin and name of the player.
    SetNameSkin { protocol_version: u8, skin: u8, name: String },
    /// Nothing to do: an empty, short or unhandled packet.
    Ignore,
}

/// The name of a player who did not send one.
pub open spec fn default_player_name() -> Seq<char> {
    "Player"@
}

/// Decodes a client's packet: its first byte gives its kind; a name-and-skin
/// packet carries the protocol version, the skin and (from its fourth byte
/// on) the name, and is ignored when shorter than three bytes.
pub fn decode_client_message(data: &[u8]) -> (c: ClientCommand)
    ensures
        data@.len() == 0 ==> c is Ignore,
        data@.len() > 0 ==> match spec_in_packet_type(data@[0]) {
            InPacketType::Angle(b) => c == ClientCommand::SetWantedAngle(b),
            InPacketType::Ping => c is Ping,
            InPacketType::StartAcc => c is StartAcceleration,
            InPacketType::StopAcc => c is StopAcceleration,
            InPacketType::UsernameSkin => if data@.len() >= 3 {
                &&& c matches ClientCommand::SetNameSkin { protocol_version, skin, name }
                &&& protocol_version == data@[1]
                &&& skin == data@[2]
                &&& name@ == if data@.len() > 3 {
                    lossy_utf8(data@.subrange(3, data@.len() as int))
                } else {
                    default_player_name()
                }
            } else {
                c is Ignore
            },
            _ => c is Ignore,
        },
{
    if data.len() == 0 {
        return ClientCommand::Ignore;
    }
    match parse_in_packet_type(data[0]) {
        InPacketType::Angle(angle_byte) => ClientCommand::SetWantedAngle(angle_byte),
        InPacketType::Ping => ClientCommand::Ping,
        InPacketType::StartAcc => ClientCommand::StartAcceleration,
        InPacketType::StopAcc => ClientCommand::StopAcceleration,
        InPacketType::UsernameSkin => {
            if data.len() >= 3 {
                let protocol_version = data[1];
                let skin = data[2];
                let name = if data.len() > 3 {
                    utf8_lossy_string(&data[3..data.len()])
                } else {
                    "Player".to_owned()
                };
                ClientCommand::SetNameSkin { protocol_version, skin, name }
            } else {
                ClientCommand::Ignore
            }
        },
        _ => ClientCommand::Ignore,
    }
}

/// Whether a changed snake's update flags call for a rotation packet: its
/// heading or its speed changed.
pub fn needs_rotation_packet(update: u8) -> (r: bool)
    ensures
        r == (update & (CHANGE_ANGLE | CHANGE_SPEED) != 0),
{
    update & (CHANGE_ANGLE | CHANGE_SPEED) != 0
}

} // verus!
