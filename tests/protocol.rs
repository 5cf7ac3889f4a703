use bot_lib::frame::{encode_frame, frame_length, length_prefix, split_frame};
use bot_lib::render::{status_line, tile_glyph};
use bot_lib::session::{apply_movement, serve_request, SessionError};
use bot_lib::wire::{
    decode_movement, decode_update, encode_movement, encode_update, grid_to_codes,
    movement_from_code, state_from_code, world_from_codes,
};
use bot_lib::{MoveError, RobotMovement, Tile, World, WorldState, WorldUpdate};

const ALL_MOVES: [RobotMovement; 4] = [
    RobotMovement::Up,
    RobotMovement::Left,
    RobotMovement::Right,
    RobotMovement::Down,
];

fn robot_of(world: &World) -> (usize, usize) {
    world.find_tile(Tile::Robot).unwrap()
}

#[test]
fn movements_encode_as_their_index() {
    assert_eq!(encode_movement(RobotMovement::Up), vec![0, 0, 0, 0]);
    assert_eq!(encode_movement(RobotMovement::Left), vec![1, 0, 0, 0]);
    assert_eq!(encode_movement(RobotMovement::Right), vec![2, 0, 0, 0]);
    assert_eq!(encode_movement(RobotMovement::Down), vec![3, 0, 0, 0]);
}

#[test]
fn movements_round_trip() {
    for m in ALL_MOVES {
        let bytes = encode_movement(m);
        assert_eq!(decode_movement(&bytes), Some(m));
    }
}

#[test]
fn malformed_movements_are_rejected() {
    assert_eq!(decode_movement(&[4, 0, 0, 0]), None);
    assert_eq!(decode_movement(&[0, 0, 1]), None);
    assert_eq!(decode_movement(&[]), None);
    assert_eq!(decode_movement(&[2, 0, 0, 0, 9]), Some(RobotMovement::Right));
    assert_eq!(decode_movement(&[3, 0, 0, 1]), None);
    assert_eq!(movement_from_code(2), Some(RobotMovement::Right));
    assert_eq!(movement_from_code(7), None);
    assert_eq!(state_from_code(1), Some(WorldState::Searching));
    assert_eq!(state_from_code(0), Some(WorldState::FoundFood));
    assert_eq!(state_from_code(2), None);
}

#[test]
fn updates_round_trip() {
    for (food, robot, state) in [
        ((10, 10), (10, 11), WorldState::Searching),
        ((99, 99), (0, 0), WorldState::FoundFood),
    ] {
        let update = WorldUpdate { world: World::custom(food, robot), world_state: state };
        let bytes = encode_update(&update);
        let back = decode_update(&bytes).unwrap();
        assert_eq!(back.world.data, update.world.data);
        assert_eq!(back.world_state, state);
    }
}

#[test]
fn update_layout_has_lengths_then_indices() {
    let update = WorldUpdate { world: World::custom((0, 1), (0, 0)), world_state: WorldState::Searching };
    let bytes = encode_update(&update);
    assert_eq!(bytes.len(), 8 + 100 * (8 + 4 * 100) + 4);
    assert_eq!(&bytes[0..8], &[100, 0, 0, 0, 0, 0, 0, 0]);
    assert_eq!(&bytes[8..16], &[100, 0, 0, 0, 0, 0, 0, 0]);
    assert_eq!(&bytes[16..28], &[0, 0, 0, 0, 1, 0, 0, 0, 2, 0, 0, 0]);
    assert_eq!(&bytes[bytes.len() - 4..], &[1, 0, 0, 0]);
}

#[test]
fn malformed_updates_are_rejected() {
    let update = WorldUpdate { world: World::custom((0, 1), (0, 0)), world_state: WorldState::FoundFood };
    let mut bytes = encode_update(&update);
    let last = bytes.len() - 4;
    bytes[last] = 2;
    assert!(decode_update(&bytes).is_none());
    bytes[last] = 0;
    bytes[16] = 3;
    assert!(decode_update(&bytes).is_none());
    assert!(decode_update(&bytes[..20]).is_none());
}

#[test]
fn codes_follow_the_tiles() {
    let world = World::custom((0, 1), (0, 2));
    let rows = grid_to_codes(&world);
    assert_eq!(rows.len(), 100);
    assert_eq!(&rows[0][0..4], &[2, 1, 0, 2]);
    assert_eq!(world_from_codes(&rows).unwrap().data, world.data);
    assert!(world_from_codes(&vec![vec![0, 5]]).is_none());
    let small = world_from_codes(&vec![vec![0, 1], vec![2]]).unwrap();
    assert_eq!(small.data, vec![vec![Tile::Robot, Tile::Food], vec![Tile::Empty]]);
}

#[test]
fn frames_carry_a_little_endian_length() {
    assert_eq!(encode_frame(&[7, 8, 9]), vec![3, 0, 0, 0, 0, 0, 0, 0, 7, 8, 9]);
    assert_eq!(encode_frame(&[]), vec![0; 8]);
    assert_eq!(length_prefix(0x0102030405060708), vec![8, 7, 6, 5, 4, 3, 2, 1]);
    assert_eq!(frame_length(&[8, 7, 6, 5, 4, 3, 2, 1]), 0x0102030405060708);
    assert_eq!(frame_length(&[255; 8]), u64::MAX);
    assert_eq!(frame_length(&length_prefix(300)), 300);
}

#[test]
fn split_frame_waits_for_a_whole_frame() {
    let mut buf = encode_frame(&[1, 2, 3]);
    buf.extend_from_slice(&encode_frame(&[4]));
    assert_eq!(split_frame(&buf), Some((vec![1, 2, 3], 11)));
    assert_eq!(split_frame(&buf[11..]), Some((vec![4], 9)));
    assert_eq!(split_frame(&buf[..10]), None);
    assert_eq!(split_frame(&buf[..7]), None);
    assert_eq!(split_frame(&[255; 8]), None);
}

#[test]
fn apply_movement_reports_the_board_after_the_move() {
    let mut world = World::custom((10, 10), (10, 11));
    let update = apply_movement(&mut world, RobotMovement::Left).unwrap();
    assert_eq!(update.world_state, WorldState::FoundFood);
    assert_eq!(update.world.data, world.data);
    assert_eq!(robot_of(&update.world), (10, 10));
    assert_eq!(
        apply_movement(&mut World::custom((1, 1), (99, 0)), RobotMovement::Down).err(),
        Some(MoveError::OutOfBounds)
    );
}

#[test]
fn session_applies_commands_in_order() {
    let mut world = World::custom((5, 12), (5, 10));
    let mut positions = Vec::new();
    let mut states = Vec::new();
    for m in [RobotMovement::Right, RobotMovement::Right, RobotMovement::Up] {
        let request = encode_frame(&encode_movement(m));
        let (payload, used) = split_frame(&request).unwrap();
        assert_eq!(used, request.len());
        let response = serve_request(&mut world, &payload).unwrap();
        let (body, used) = split_frame(&response).unwrap();
        assert_eq!(used, response.len());
        let update = decode_update(&body).unwrap();
        assert_eq!(update.world.data, world.data);
        positions.push(robot_of(&update.world));
        states.push(update.world_state);
    }
    assert_eq!(positions, vec![(5, 11), (5, 12), (4, 12)]);
    assert_eq!(
        states,
        vec![WorldState::Searching, WorldState::FoundFood, WorldState::FoundFood]
    );
}

#[test]
fn session_errors_leave_the_board_alone() {
    let mut world = World::custom((5, 5), (0, 3));
    let before = world.data.clone();
    assert_eq!(serve_request(&mut world, &[9, 0, 0, 0]), Err(SessionError::Decode));
    assert_eq!(serve_request(&mut world, &[1]), Err(SessionError::Decode));
    assert_eq!(serve_request(&mut world, &[]), Err(SessionError::Decode));
    let up = encode_movement(RobotMovement::Up);
    assert_eq!(
        serve_request(&mut world, &up),
        Err(SessionError::Move(MoveError::OutOfBounds))
    );
    assert_eq!(world.data, before);
    let mut empty = World::empty();
    assert_eq!(
        serve_request(&mut empty, &up),
        Err(SessionError::Move(MoveError::RobotNotFound))
    );
}

#[test]
fn glyphs_and_status_lines() {
    assert_eq!(tile_glyph(Tile::Robot), 'R');
    assert_eq!(tile_glyph(Tile::Food), 'F');
    assert_eq!(tile_glyph(Tile::Empty), '.');
    assert_eq!(status_line(WorldState::FoundFood), "Robot: <3 yummy!");
    assert_eq!(status_line(WorldState::Searching), "Robot: I want food!");
}
