use catan_service::board::{setup_buildings, setup_roads, setup_tiles};
use catan_service::buildings::{BuildingKey, BuildingPosition};
use catan_service::game_info::create_regular_game_info;
use catan_service::text::{format_log_message, parse_i32_text};
use catan_service::shuffle::deal;
use catan_service::tiles::{get_neighbor_direction, Direction, DirectionError, Tile, TileKey, TileResource};

#[test]
fn neighbor_key_steps_in_cube_coordinates() {
    let k = TileKey::new(0, 0, 0);
    assert_eq!(k.get_neighbor_key(Direction::North), TileKey::new(0, -1, 1));
    assert_eq!(k.get_neighbor_key(Direction::NorthEast), TileKey::new(1, -1, 0));
    assert_eq!(k.get_neighbor_key(Direction::SouthEast), TileKey::new(1, 0, -1));
    assert_eq!(k.get_neighbor_key(Direction::South), TileKey::new(0, 1, -1));
    assert_eq!(k.get_neighbor_key(Direction::SouthWest), TileKey::new(-1, 1, 0));
    assert_eq!(k.get_neighbor_key(Direction::NorthWest), TileKey::new(-1, 0, 1));
}

#[test]
fn going_to_a_neighbor_and_back_returns_home() {
    let k = TileKey::new(1, -2, 1);
    for d in Direction::all() {
        let n = k.get_neighbor_key(d);
        assert_eq!(n.get_neighbor_key(get_neighbor_direction(d)), k);
        assert_eq!(get_neighbor_direction(get_neighbor_direction(d)), d);
    }
}

#[test]
fn adjacent_keys_are_the_six_distinct_neighbors() {
    let k = TileKey::new(2, -1, -1);
    let adj = k.get_adjacent_keys();
    assert_eq!(adj.len(), 6);
    for i in 0..6 {
        assert_eq!(adj[i].q + adj[i].r + adj[i].s, 0);
        for j in (i + 1)..6 {
            assert_ne!(adj[i], adj[j]);
        }
        assert_ne!(adj[i], k);
    }
}

#[test]
fn tile_key_text() {
    assert_eq!(TileKey::new(-1, 2, -1).to_string(), "TileKey(q:-1, r:2, s:-1)");
}

#[test]
fn direction_numbers_and_parsing() {
    let all = Direction::all();
    assert_eq!(all.len(), 6);
    for (i, d) in all.iter().enumerate() {
        assert_eq!(d.number(), i as i32);
    }
    assert_eq!(Direction::from_str("0"), Ok(Direction::North));
    assert_eq!(Direction::from_str("4"), Ok(Direction::SouthWest));
    assert_eq!(Direction::from_str("6"), Err(DirectionError::BadDirection));
    assert_eq!(Direction::from_str("North"), Err(DirectionError::BadDirection));
}

#[test]
fn regular_layout_is_a_radius_two_hexagon() {
    let info = create_regular_game_info();
    let tiles = setup_tiles(&info);
    assert_eq!(tiles.len(), 19);
    for (i, a) in tiles.iter().enumerate() {
        assert_eq!(a.key.q + a.key.r + a.key.s, 0);
        assert!(a.key.q.abs() <= 2 && a.key.r.abs() <= 2 && a.key.s.abs() <= 2);
        for b in tiles.iter().skip(i + 1) {
            assert_ne!(a.key, b.key);
        }
    }
}

#[test]
fn roads_and_corners_are_laid_on_every_tile() {
    let info = create_regular_game_info();
    let mut tiles = setup_tiles(&info);
    let roads = setup_roads(&mut tiles);
    for t in tiles.iter() {
        assert_eq!(t.roads.len(), 6);
    }
    assert!(!roads.is_empty());
    let buildings = setup_buildings(&tiles);
    assert!(!buildings.is_empty());
}

#[test]
fn adjacent_corners_see_each_other() {
    let info = create_regular_game_info();
    let tiles = setup_tiles(&info);
    let center = TileKey::new(0, 0, 0);
    for p in BuildingPosition::all() {
        let b = BuildingKey::new(p, center);
        let adj = b.get_adjacent_building_keys(&tiles);
        assert_eq!(adj.len(), 2);
        for a in adj.iter() {
            let back = a.get_adjacent_building_keys(&tiles);
            assert!(back.contains(&b));
        }
    }
}

#[test]
fn corner_on_the_edge_has_fewer_neighbors_on_the_board() {
    let info = create_regular_game_info();
    let tiles = setup_tiles(&info);
    let b = BuildingKey::new(BuildingPosition::TopRight, TileKey::new(0, -2, 2));
    let adj = b.get_adjacent_building_keys(&tiles);
    assert!(adj.len() < 2);
}

#[test]
fn log_messages_collapse_white_space() {
    assert_eq!(format_log_message("  hello \n\t world  "), "hello world");
    assert_eq!(format_log_message(""), "");
    assert_eq!(format_log_message("a\r\nb"), "a b");
    let once = format_log_message(" x   y\n z ");
    assert_eq!(format_log_message(&once), once);
}

#[test]
fn decimal_parsing() {
    assert_eq!(parse_i32_text("42"), Some(42));
    assert_eq!(parse_i32_text("-17"), Some(-17));
    assert_eq!(parse_i32_text("+5"), Some(5));
    assert_eq!(parse_i32_text("2147483647"), Some(i32::MAX));
    assert_eq!(parse_i32_text("-2147483648"), Some(i32::MIN));
    assert_eq!(parse_i32_text("2147483648"), None);
    assert_eq!(parse_i32_text("12a"), None);
    assert_eq!(parse_i32_text(""), None);
}

#[test]
fn deal_gives_the_kth_dealt_tile_the_kth_values() {
    let mut tiles = vec![
        Tile::new(TileKey::new(0, 0, 0), 5, TileResource::Wood),
        Tile::new(TileKey::new(1, -1, 0), 7, TileResource::Desert),
        Tile::new(TileKey::new(0, -1, 1), 9, TileResource::Ore),
        Tile::new(TileKey::new(-1, 0, 1), 3, TileResource::Brick),
    ];
    deal(&mut tiles, &vec![TileResource::Sheep, TileResource::Wheat, TileResource::Ore], &vec![11, 4, 6]);
    assert_eq!(tiles[0].current_resource, TileResource::Sheep);
    assert_eq!(tiles[0].original_resource, TileResource::Sheep);
    assert_eq!(tiles[0].roll, 11);
    assert_eq!(tiles[1].current_resource, TileResource::Desert);
    assert_eq!(tiles[1].roll, 7);
    assert_eq!(tiles[2].current_resource, TileResource::Wheat);
    assert_eq!(tiles[2].roll, 4);
    assert_eq!(tiles[3].current_resource, TileResource::Ore);
    assert_eq!(tiles[3].roll, 6);
    assert_eq!(tiles[3].key, TileKey::new(-1, 0, 1));
}

#[test]
fn neighbor_key_needs_only_its_own_direction_in_range() {
    let k = TileKey::new(i32::MAX, 0, 0);
    assert_eq!(k.get_neighbor_key(Direction::North), TileKey::new(i32::MAX, -1, 1));
    assert_eq!(TileKey::new(0, 0, 0).get_neighbor_key(Direction::North), TileKey::new(0, -1, 1));
}

#[test]
fn a_tall_column_is_laid_out() {
    let mut info = create_regular_game_info();
    info.rows_per_column = vec![2000];
    info.tile_resources = vec![TileResource::Wood; 2000];
    info.rolls = vec![5; 2000];
    let tiles = setup_tiles(&info);
    assert_eq!(tiles.len(), 2000);
    assert_eq!(tiles[0].key, TileKey::new(-1000, 0, 1000));
    assert_eq!(tiles[1999].key, TileKey::new(-1000, 1999, -999));
}
