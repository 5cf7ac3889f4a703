use bot_lib::{MoveError, RobotMovement, Tile, World, WorldState};

fn robots(world: &World) -> Vec<(usize, usize)> {
    let mut found = Vec::new();
    for (y, row) in world.data.iter().enumerate() {
        for (x, tile) in row.iter().enumerate() {
            if *tile == Tile::Robot {
                found.push((y, x));
            }
        }
    }
    found
}

fn foods(world: &World) -> Vec<(usize, usize)> {
    let mut found = Vec::new();
    for (y, row) in world.data.iter().enumerate() {
        for (x, tile) in row.iter().enumerate() {
            if *tile == Tile::Food {
                found.push((y, x));
            }
        }
    }
    found
}

#[test]
fn test_world() {
    let mut world = World::custom((10, 10), (12, 12));
    world.move_robot(RobotMovement::Up).unwrap();
    assert_eq!(robots(&world), vec![(11, 12)]);
    assert_eq!(foods(&world), vec![(10, 10)]);
}

#[test]
fn test_eat_food() {
    let mut world = World::custom((10, 10), (10, 11));
    world.move_robot(RobotMovement::Up).unwrap();
    assert_eq!(world.world_state(), WorldState::Searching);
    world.move_robot(RobotMovement::Left).unwrap();
    // Up then Left puts the robot at (9, 10), just above the food.
    assert_eq!(world.world_state(), WorldState::Searching);
    world.move_robot(RobotMovement::Down).unwrap();
    assert_eq!(world.world_state(), WorldState::FoundFood);
}

#[test]
fn eating_food_and_moving_on_keeps_it_gone() {
    let mut world = World::custom((10, 10), (10, 11));
    assert_eq!(world.world_state(), WorldState::Searching);
    world.move_robot(RobotMovement::Left).unwrap();
    assert_eq!(robots(&world), vec![(10, 10)]);
    assert_eq!(world.world_state(), WorldState::FoundFood);
    world.move_robot(RobotMovement::Right).unwrap();
    assert_eq!(robots(&world), vec![(10, 11)]);
    assert_eq!(world.data[10][10], Tile::Empty);
    assert_eq!(world.world_state(), WorldState::FoundFood);
    assert_eq!(world.world_state(), WorldState::FoundFood);
}

#[test]
fn move_up_from_top_row_is_out_of_bounds() {
    let mut world = World::custom((50, 50), (0, 5));
    let before = world.data.clone();
    assert_eq!(world.move_robot(RobotMovement::Up), Err(MoveError::OutOfBounds));
    assert_eq!(world.data, before);
    assert_eq!(robots(&world), vec![(0, 5)]);
}

#[test]
fn moves_off_each_edge_are_refused() {
    let cases = [
        ((0, 0), RobotMovement::Left),
        ((99, 3), RobotMovement::Down),
        ((4, 99), RobotMovement::Right),
        ((0, 99), RobotMovement::Up),
    ];
    for (robot, direction) in cases {
        let mut world = World::custom((50, 50), robot);
        let before = world.data.clone();
        assert_eq!(world.move_robot(direction), Err(MoveError::OutOfBounds));
        assert_eq!(world.data, before);
    }
}

#[test]
fn moves_inside_the_grid_step_one_cell() {
    let cases = [
        (RobotMovement::Up, (19, 30)),
        (RobotMovement::Down, (21, 30)),
        (RobotMovement::Left, (20, 29)),
        (RobotMovement::Right, (20, 31)),
    ];
    for (direction, expected) in cases {
        let mut world = World::custom((70, 70), (20, 30));
        assert_eq!(world.move_robot(direction), Ok(()));
        assert_eq!(robots(&world), vec![expected]);
        assert_eq!(foods(&world), vec![(70, 70)]);
        assert_eq!(world.data[20][30], Tile::Empty);
    }
}

#[test]
fn moves_along_the_last_row_and_column_stay_inside() {
    let mut world = World::custom((0, 0), (99, 98));
    assert_eq!(world.move_robot(RobotMovement::Right), Ok(()));
    assert_eq!(robots(&world), vec![(99, 99)]);
    assert_eq!(world.move_robot(RobotMovement::Up), Ok(()));
    assert_eq!(robots(&world), vec![(98, 99)]);
}

#[test]
fn a_world_without_robot_reports_it() {
    let mut world = World::empty();
    let before = world.data.clone();
    assert_eq!(world.move_robot(RobotMovement::Down), Err(MoveError::RobotNotFound));
    assert_eq!(world.data, before);
    assert_eq!(world.world_state(), WorldState::FoundFood);
}

#[test]
fn custom_places_food_and_robot() {
    let world = World::custom((3, 4), (5, 6));
    assert_eq!(world.data.len(), 100);
    assert!(world.data.iter().all(|row| row.len() == 100));
    assert_eq!(robots(&world), vec![(5, 6)]);
    assert_eq!(foods(&world), vec![(3, 4)]);
}

#[test]
fn custom_on_one_cell_leaves_only_the_robot() {
    let world = World::custom((7, 7), (7, 7));
    assert_eq!(robots(&world), vec![(7, 7)]);
    assert!(foods(&world).is_empty());
    assert_eq!(world.world_state(), WorldState::FoundFood);
}

#[test]
fn from_cells_skips_the_food_cell() {
    let world = World::from_cells(5, 5);
    assert_eq!(foods(&world), vec![(0, 5)]);
    assert_eq!(robots(&world), vec![(0, 6)]);

    let world = World::from_cells(5, 4);
    assert_eq!(robots(&world), vec![(0, 4)]);

    let world = World::from_cells(0, 0);
    assert_eq!(foods(&world), vec![(0, 0)]);
    assert_eq!(robots(&world), vec![(0, 1)]);

    let world = World::from_cells(9999, 9998);
    assert_eq!(foods(&world), vec![(99, 99)]);
    assert_eq!(robots(&world), vec![(99, 98)]);

    let world = World::from_cells(0, 9998);
    assert_eq!(robots(&world), vec![(99, 99)]);

    let world = World::from_cells(250, 1234);
    assert_eq!(foods(&world), vec![(2, 50)]);
    assert_eq!(robots(&world), vec![(12, 35)]);
}

#[test]
fn random_world_never_starts_on_the_food() {
    for _ in 0..50 {
        let world = World::default();
        assert_eq!(robots(&world).len(), 1);
        assert_eq!(foods(&world).len(), 1);
        assert_ne!(robots(&world), foods(&world));
        assert_eq!(world.world_state(), WorldState::Searching);
    }
}

#[test]
fn snapshot_copies_every_cell() {
    let mut world = World::custom((1, 2), (3, 4));
    let copy = world.snapshot();
    assert_eq!(copy.data, world.data);
    world.move_robot(RobotMovement::Down).unwrap();
    assert_eq!(robots(&copy), vec![(3, 4)]);
}

#[test]
fn find_tile_scans_from_the_top() {
    let world = World::custom((40, 2), (8, 9));
    assert_eq!(world.find_tile(Tile::Robot), Some((8, 9)));
    assert_eq!(world.find_tile(Tile::Food), Some((40, 2)));
    assert_eq!(world.find_tile(Tile::Empty), Some((0, 0)));
    assert_eq!(World::empty().find_tile(Tile::Food), None);
}

#[test]
fn is_wf_checks_shape_and_single_robot() {
    assert!(World::custom((1, 1), (2, 2)).is_wf());
    assert!(World::empty().is_wf());
    let mut two = World::custom((1, 1), (2, 2));
    two.data[3][3] = Tile::Robot;
    assert!(!two.is_wf());
    let mut short = World::custom((1, 1), (2, 2));
    short.data[50].pop();
    assert!(!short.is_wf());
    let mut missing = World::custom((1, 1), (2, 2));
    missing.data.pop();
    assert!(!missing.is_wf());
}
