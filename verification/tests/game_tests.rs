use slitherss::config::{Config, WorldConfig};
use slitherss::food::Food;
use slitherss::sector::{BoundBox, Sector, SectorSeq, SnakeBoundBox, ViewPort};
use slitherss::server::{decode_client_message, needs_rotation_packet, ClientCommand};
use slitherss::snake::{
    grow_parts, parts_to_add, parts_to_remove, shift_parts, shrink_parts, SnakeMotion, CHANGE_ANGLE, CHANGE_DEAD, CHANGE_DYING,
    CHANGE_POS, CHANGE_SPEED,
};
use slitherss::world::{snake_length, World};

#[test]
fn world_config_from_command_line() {
    let c = Config { port: 8080, bots: 5, avg_len: 10, min_len: 3, verbose: false, debug: true };
    let w = c.world_config();
    assert_eq!((w.bots, w.snake_average_length, w.snake_min_length), (5, 10, 3));
    let d = WorldConfig::default();
    assert_eq!((d.bots, d.snake_average_length, d.snake_min_length), (0, 2, 2));
    assert_eq!(WorldConfig::SECTOR_COUNT_ALONG_EDGE, 2 * WorldConfig::GAME_RADIUS / WorldConfig::SECTOR_SIZE);
    assert_eq!(WorldConfig::DEATH_RADIUS, WorldConfig::GAME_RADIUS - WorldConfig::SECTOR_SIZE);
}

#[test]
fn food_new_keeps_fields() {
    let f = Food::new(1, 2, 3, 4);
    assert_eq!((f.x, f.y, f.size, f.color), (1, 2, 3, 4));
}

#[test]
fn sector_center() {
    let s = Sector::new(2, 143);
    assert_eq!((s.box_x, s.box_y), (750, 43050));
    assert!(s.snakes.is_empty() && s.food.is_empty());
}

#[test]
fn grid_layout() {
    let mut seq = SectorSeq::new();
    assert_eq!(seq.len(), 0);
    assert!(seq.get_sector(0, 0).is_none());
    seq.init_sectors();
    assert_eq!(seq.len(), 144 * 144);
    let s = seq.get_by_index(145).unwrap();
    assert_eq!((s.x, s.y), (1, 1));
    assert_eq!(seq.get_index(299, 300), 144);
    assert_eq!(seq.get_index(43199, 43199), 144 * 144 - 1);
    let s = seq.get_sector(1000, 2000).unwrap();
    assert_eq!((s.x, s.y), (3, 6));
    assert!(seq.get_by_index(144 * 144).is_none());
    seq.get_sector_mut(10, 10).unwrap().insert_food(Food::new(10, 10, 5, 1));
    assert_eq!(seq.get_by_index(0).unwrap().food.len(), 1);
    seq.get_by_index_mut(1).unwrap().snakes.push(4);
    assert_eq!(seq.get_by_index(1).unwrap().snakes, vec![4]);
}

#[test]
fn bound_box_records_each_sector_once() {
    let mut b = BoundBox::new(3);
    b.insert_sector(5);
    b.insert_sector(2);
    b.insert_sector(5);
    assert_eq!(b.sectors, vec![5, 2]);
    assert!(b.is_present(2));
    assert!(!b.is_present(7));
    b.sort_sectors();
    assert_eq!(b.sectors, vec![2, 5]);
    b.remove_sector(2);
    assert_eq!(b.sectors, vec![5]);
}

#[test]
fn sector_food_and_snakes() {
    let mut s = Sector::new(0, 0);
    s.insert_food(Food::new(30, 1, 5, 0));
    s.insert_food(Food::new(10, 2, 5, 0));
    s.insert_food(Food::new(30, 3, 5, 0));
    s.insert_food(Food::new(20, 4, 5, 0));
    s.sort_food();
    let order: Vec<(u16, u16)> = s.food.iter().map(|f| (f.x, f.y)).collect();
    assert_eq!(order, vec![(10, 2), (20, 4), (30, 1), (30, 3)]);
    s.snakes = vec![1, 2, 1, 3];
    s.remove_snake(1);
    assert_eq!(s.snakes, vec![2, 3]);
}

#[test]
fn snake_box_follows_range() {
    let mut b = SnakeBoundBox::new(1);
    b.bound_box.sectors = vec![4, 1, 9];
    b.update_sectors(&[false, true, true, false, false]);
    assert_eq!(b.bound_box.sectors, vec![1, 9, 2]);
}

#[test]
fn viewport_lists_entering_and_leaving_sectors() {
    let mut v = ViewPort::new(1);
    v.update_sectors(&[true, false, true]);
    assert_eq!(v.bound_box.sectors, vec![0, 2]);
    assert_eq!(v.new_sectors, vec![0, 2]);
    assert!(v.old_sectors.is_empty());
    v.update_sectors(&[false, true, true]);
    assert_eq!(v.bound_box.sectors, vec![2, 1]);
    assert_eq!(v.new_sectors, vec![1]);
    assert_eq!(v.old_sectors, vec![0]);
}

#[test]
fn motion_starts_at_base_speed() {
    let m = SnakeMotion::new();
    assert_eq!(m.speed, 185);
    assert!(!m.acceleration && !m.bot && m.update == 0);
    assert_eq!((m.mov_ticks, m.rot_ticks, m.ai_ticks), (0, 0, 0));
}

#[test]
fn rotation_interval_matches_float_constants() {
    let rot_step_angle = 1.0f32 * 42.0 / 448.0 * 4.125;
    assert_eq!((1000.0f32 * rot_step_angle / 4.125) as i64, SnakeMotion::ROT_STEP_INTERVAL);
}

#[test]
fn movement_frames() {
    let mut m = SnakeMotion::new();
    // 42000 / 185 = 227 ms per frame
    assert_eq!(m.movement_step(200), 0);
    assert_eq!(m.mov_ticks, 200);
    assert_eq!(m.movement_step(500), 681);
    assert_eq!(m.mov_ticks, 19);
}

#[test]
fn rotation_frames() {
    let mut m = SnakeMotion::new();
    assert_eq!(m.rotation_step(90), 0);
    assert_eq!(m.rotation_step(100), 186);
    assert_eq!(m.rot_ticks, 4);
}

#[test]
fn ai_frames_only_for_bots() {
    let mut m = SnakeMotion::new();
    assert_eq!(m.ai_step(5000), 0);
    assert_eq!(m.ai_ticks, 0);
    m.bot = true;
    assert_eq!(m.ai_step(1000), 0);
    assert_eq!(m.ai_step(1500), 2);
    assert_eq!(m.ai_ticks, 500);
}

#[test]
fn speed_follows_boost_without_overshoot() {
    let mut m = SnakeMotion::new();
    assert!(!m.adjust_speed(100));
    m.acceleration = true;
    assert!(m.adjust_speed(100));
    assert_eq!(m.speed, 285);
    assert!(m.adjust_speed(1000));
    assert_eq!(m.speed, 448);
    m.acceleration = false;
    assert!(m.adjust_speed(200));
    assert_eq!(m.speed, 248);
    assert!(m.adjust_speed(65536 + 10));
    assert_eq!(m.speed, 238);
}

#[test]
fn boost_consumption() {
    let mut m = SnakeMotion::new();
    assert!(!m.consume_boost(10));
    m.acceleration = true;
    assert!(m.consume_boost(10));
    assert!(m.acceleration);
    assert!(!m.consume_boost(3));
    assert!(!m.acceleration);
}

#[test]
fn change_flags() {
    let mut m = SnakeMotion::new();
    assert!(!m.commit_changes(0));
    assert!(m.commit_changes(CHANGE_POS));
    assert!(!m.commit_changes(CHANGE_POS));
    assert!(m.commit_changes(CHANGE_ANGLE));
    assert_eq!(m.update, CHANGE_POS | CHANGE_ANGLE);
    assert!(!m.is_halted());
    m.update |= CHANGE_DYING;
    assert!(m.is_halted());
    m.update = CHANGE_DEAD;
    assert!(m.is_halted());
    assert!(needs_rotation_packet(CHANGE_SPEED));
    assert!(needs_rotation_packet(CHANGE_ANGLE | CHANGE_POS));
    assert!(!needs_rotation_packet(CHANGE_POS));
}

#[test]
fn growth_and_shrinking_counts() {
    assert_eq!(parts_to_add(33), 1);
    assert_eq!(parts_to_add(250), 2);
    assert_eq!(parts_to_remove(33, 10), 1);
    assert_eq!(parts_to_remove(500, 10), 5);
    assert_eq!(parts_to_remove(900, 10), 7);
    assert_eq!(parts_to_remove(33, 3), 0);
}

#[test]
fn body_grows_with_copies_of_its_tail() {
    let mut parts = vec![1, 2, 3];
    grow_parts(&mut parts, 250);
    assert_eq!(parts, vec![1, 2, 3, 3, 3]);
    let mut empty: Vec<u8> = vec![];
    grow_parts(&mut empty, 500);
    assert!(empty.is_empty());
}

#[test]
fn body_shrinks_from_its_tail() {
    let mut parts = vec![1, 2, 3, 4, 5, 6];
    assert_eq!(shrink_parts(&mut parts, 200), vec![6, 5]);
    assert_eq!(parts, vec![1, 2, 3, 4]);
    assert_eq!(shrink_parts(&mut parts, 900), vec![4]);
    assert_eq!(parts, vec![1, 2, 3]);
    assert!(shrink_parts(&mut parts, 100).is_empty());
}

#[test]
fn client_messages() {
    assert!(matches!(decode_client_message(&[]), ClientCommand::Ignore));
    assert!(matches!(decode_client_message(&[42]), ClientCommand::SetWantedAngle(42)));
    assert!(matches!(decode_client_message(&[252]), ClientCommand::SetWantedAngle(0)));
    assert!(matches!(decode_client_message(&[251]), ClientCommand::Ping));
    assert!(matches!(decode_client_message(&[253]), ClientCommand::StartAcceleration));
    assert!(matches!(decode_client_message(&[254]), ClientCommand::StopAcceleration));
    assert!(matches!(decode_client_message(&[255]), ClientCommand::Ignore));
    assert!(matches!(decode_client_message(&[108]), ClientCommand::Ignore));
    assert!(matches!(decode_client_message(&[115, 8]), ClientCommand::Ignore));
    match decode_client_message(&[115, 8, 12]) {
        ClientCommand::SetNameSkin { protocol_version, skin, name } => {
            assert_eq!((protocol_version, skin), (8, 12));
            assert_eq!(name, "Player");
        }
        _ => panic!("expected a name and skin"),
    }
    match decode_client_message(&[115, 9, 3, b'b', b'o', b'b']) {
        ClientCommand::SetNameSkin { protocol_version, skin, name } => {
            assert_eq!((protocol_version, skin), (9, 3));
            assert_eq!(name, "bob");
        }
        _ => panic!("expected a name and skin"),
    }
    match decode_client_message(&[115, 9, 3, b'a', 0xFF]) {
        ClientCommand::SetNameSkin { name, .. } => assert_eq!(name, "a\u{FFFD}"),
        _ => panic!("expected a name and skin"),
    }
}

#[test]
fn world_starts_empty() {
    let w: World<u32> = World::new();
    assert!(w.get_snakes().is_empty());
    assert!(w.get_dead().is_empty());
    assert!(w.get_changed_snakes().is_empty());
    assert_eq!(w.get_sectors().len(), 0);
}

#[test]
fn world_init_scatters_food() {
    let mut w: World<u32> = World::new();
    w.init(WorldConfig { bots: 0, snake_average_length: 5, snake_min_length: 2 });
    let sectors = w.get_sectors();
    assert_eq!(sectors.len(), 144 * 144);
    let mut total = 0;
    for i in 0..sectors.len() {
        let s = sectors.get_by_index(i).unwrap();
        for f in &s.food {
            assert!(f.x < 43200 && f.y < 43200);
            assert_eq!(sectors.get_index(f.x, f.y), i);
            assert!((5..15).contains(&f.size));
            assert!(f.color < 28);
        }
        total += s.food.len();
    }
    assert_eq!(total, 1000);
}

#[test]
fn world_snake_bookkeeping() {
    let mut w: World<u32> = World::new();
    let a = w.next_snake_id();
    let b = w.next_snake_id();
    assert_eq!((a, b), (1, 2));
    w.add_snake(a, 10);
    w.add_snake(b, 20);
    *w.get_snake_mut(a).unwrap() += 5;
    assert_eq!(w.get_snake(a), Some(&15));
    assert!(w.get_snake_mut(9).is_none());
    let mut ids = w.snake_ids();
    ids.sort();
    assert_eq!(ids, vec![1, 2]);
    w.remove_snake(a);
    assert!(w.get_snake(a).is_none());
    assert_eq!(w.get_dead(), &vec![1]);
    w.record_change(b);
    assert_eq!(w.get_changed_snakes(), &vec![2]);
    w.reset_changes();
    assert!(w.get_changed_snakes().is_empty());
    w.record_change(b);
    w.flush_changes();
    assert!(w.get_dead().is_empty() && w.get_changed_snakes().is_empty());
    w.get_snakes_mut().insert(7, 70);
    assert_eq!(w.get_snake(7), Some(&70));
}

#[test]
fn world_clock_runs_whole_frames() {
    let mut w: World<u32> = World::new();
    assert_eq!(w.advance_clock(5), 0);
    assert_eq!(w.advance_clock(5), 8);
    assert_eq!(w.advance_clock(30), 32);
    assert_eq!(w.advance_clock(-100), 0);
}

#[test]
fn snake_length_for_a_draw() {
    assert_eq!(snake_length(2, 5), 8);
    assert_eq!(snake_length(7, 3), 10);
    assert_eq!(snake_length(4, 4), 7);
}

#[test]
fn world_random_draws_stay_in_range() {
    let mut w: World<u32> = World::new();
    w.init(WorldConfig { bots: 0, snake_average_length: 10, snake_min_length: 2 });
    for _ in 0..200 {
        let len = w.roll_snake_length();
        assert!((5..13).contains(&len));
        let skin = w.roll_skin();
        assert!((9..30).contains(&skin));
    }
}

#[test]
fn body_moves_up_behind_the_head() {
    let mut parts = vec![10, 20, 30, 40, 50];
    let carried = shift_parts(&mut parts, 9, 3);
    assert_eq!(parts, vec![10, 9, 20, 40, 50]);
    assert_eq!(carried, 30);
    let mut one = vec![7, 8];
    assert_eq!(shift_parts(&mut one, 1, 1), 1);
    assert_eq!(one, vec![7, 8]);
}

#[test]
fn clock_hands_out_whole_frames_over_a_run() {
    let mut w: World<u32> = World::new();
    let dts = [3i64, 4, 9, 0, 17, 1, 30];
    let mut handed = 0;
    for &dt in &dts {
        let t = w.get_ticks() + dt;
        let f = w.advance_clock(dt);
        assert_eq!(f % 8, 0);
        if t < 8 {
            assert_eq!(f, 0);
        }
        assert!((0..8).contains(&w.get_ticks()));
        handed += f;
    }
    let total: i64 = dts.iter().sum();
    assert_eq!(handed, 8 * (total / 8));
    assert_eq!(handed + w.get_ticks(), total);
}

#[test]
fn world_tick_starts_due_frames_only() {
    let mut w: World<u32> = World::new();
    w.add_snake(1, 10);
    w.add_snake(2, 20);
    w.record_change(2);
    let f = w.tick(5);
    assert_eq!(f.dt, 0);
    assert!(f.ids.is_empty());
    assert_eq!(w.get_changed_snakes(), &vec![2]);
    let f = w.tick(20);
    assert_eq!(f.dt, 24);
    let mut ids = f.ids.clone();
    ids.sort();
    assert_eq!(ids, vec![1, 2]);
    assert!(w.get_changed_snakes().is_empty());
    assert_eq!((w.get_ticks(), w.get_frames()), (1, 3));
}

#[test]
fn frame_records_the_snakes_whose_step_changed() {
    let mut w: World<u32> = World::new();
    w.record_frame(&vec![(3, true), (1, false), (2, true)]);
    assert_eq!(w.get_changed_snakes(), &vec![3, 2]);
    w.record_frame(&vec![(5, false)]);
    assert_eq!(w.get_changed_snakes(), &vec![3, 2]);
}

#[test]
fn sector_gives_up_the_food_in_reach() {
    let mut s = Sector::new(0, 0);
    for (i, x) in [10u16, 20, 30, 40].iter().enumerate() {
        s.insert_food(Food::new(*x, i as u16, 5, 0));
    }
    let mut eaten = vec![Food::new(1, 1, 5, 1)];
    s.take_food(&vec![false, true, false, true, true], &mut eaten);
    let kept: Vec<u16> = s.food.iter().map(|f| f.x).collect();
    let taken: Vec<u16> = eaten.iter().map(|f| f.x).collect();
    assert_eq!(kept, vec![10, 30]);
    assert_eq!(taken, vec![1, 20, 40]);
    s.take_food(&vec![true], &mut eaten);
    assert_eq!(s.food.len(), 1);
    assert_eq!(eaten.len(), 4);
    s.take_food(&vec![], &mut eaten);
    assert_eq!(s.food.len(), 1);
}
