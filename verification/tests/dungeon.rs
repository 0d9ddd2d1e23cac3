use roguelike::color::black;
use roguelike::dungeon::{
    create_h_tunnel, create_room, create_v_tunnel, make_map, place_objects, spawn_object, RoomPlan, Spawn,
    SpawnKind,
};
use roguelike::types::{Item, Object, Rect, Tile, TileMap};

fn walls(w: usize, h: usize) -> TileMap {
    vec![vec![Tile::wall(); h]; w]
}

fn floor_cells(map: &TileMap) -> Vec<(usize, usize)> {
    let mut cells = vec![];
    for x in 0..map.len() {
        for y in 0..map[x].len() {
            if !map[x][y].blocked {
                cells.push((x, y));
            }
        }
    }
    cells
}

#[test]
fn room_interior_becomes_floor() {
    let mut map = walls(6, 6);
    create_room(&Rect::new(1, 1, 3, 3), &mut map);
    assert_eq!(floor_cells(&map), vec![(2, 2), (2, 3), (3, 2), (3, 3)]);
    assert!(!map[2][2].block_sight);
}

#[test]
fn tunnels_include_both_ends() {
    let mut map = walls(6, 6);
    create_h_tunnel(4, 1, 2, &mut map);
    assert_eq!(floor_cells(&map), vec![(1, 2), (2, 2), (3, 2), (4, 2)]);
    let mut map = walls(6, 6);
    create_v_tunnel(0, 2, 5, &mut map);
    assert_eq!(floor_cells(&map), vec![(5, 0), (5, 1), (5, 2)]);
}

#[test]
fn make_map_digs_rooms_and_tunnels_and_places_player() {
    let plans = vec![
        RoomPlan { room: Rect::new(0, 0, 4, 4), horizontal_first: true },
        RoomPlan { room: Rect::new(1, 1, 2, 2), horizontal_first: false },
        RoomPlan { room: Rect::new(6, 4, 4, 4), horizontal_first: true },
    ];
    let mut objects = vec![Object::new(0, 0, '@', "player", black(), true)];
    let map = make_map(&plans, 12, 10, &mut objects);
    assert_eq!(map.len(), 12);
    assert!(map.iter().all(|c| c.len() == 10));
    assert_eq!(objects[0].pos(), (2, 2));
    assert!(!map[2][2].blocked);
    // first room interior
    for x in 1..4 {
        for y in 1..4 {
            assert!(!map[x][y].blocked);
        }
    }
    // third room interior
    for x in 7..10 {
        for y in 5..8 {
            assert!(!map[x][y].blocked);
        }
    }
    // tunnel: row 2 from x = 2 to 8, then column 8 from y = 2 to 6
    for x in 2..=8 {
        assert!(!map[x][2].blocked);
    }
    for y in 2..=6 {
        assert!(!map[8][y].blocked);
    }
    assert!(map[0][0].blocked);
    assert!(map[5][5].blocked);
    assert!(map[11][9].blocked);
    assert_eq!(floor_cells(&map).len(), 9 + 9 + 5 + 2);
}

#[test]
fn make_map_without_rooms_leaves_player() {
    let mut objects = vec![Object::new(3, 4, '@', "player", black(), true)];
    let map = make_map(&[], 3, 2, &mut objects);
    assert_eq!(objects[0].pos(), (3, 4));
    assert_eq!(floor_cells(&map), vec![]);
}

#[test]
fn spawned_things() {
    let orc = spawn_object(Spawn { x: 1, y: 2, kind: SpawnKind::Orc });
    assert_eq!((orc.pos(), orc.char, orc.name.as_str(), orc.blocks, orc.alive), ((1, 2), 'o', "orc", true, true));
    assert_eq!(orc.fighter.unwrap().max_hp, 10);
    let troll = spawn_object(Spawn { x: 3, y: 4, kind: SpawnKind::Troll });
    assert_eq!(troll.fighter.unwrap().attack, 4);
    assert_eq!(troll.name, "troll");
    let potion = spawn_object(Spawn { x: 5, y: 6, kind: SpawnKind::HealingPotion });
    assert!(!potion.blocks);
    assert_eq!(potion.item, Some(Item::Heal));
}

#[test]
fn placing_skips_blocked_places() {
    let mut map = walls(5, 5);
    create_room(&Rect::new(0, 0, 4, 4), &mut map);
    let mut objects = vec![Object::new(1, 1, '@', "player", black(), true)];
    let spawns = vec![
        Spawn { x: 1, y: 1, kind: SpawnKind::Orc },
        Spawn { x: 0, y: 0, kind: SpawnKind::Orc },
        Spawn { x: 2, y: 2, kind: SpawnKind::Troll },
        Spawn { x: 2, y: 2, kind: SpawnKind::Orc },
        Spawn { x: 2, y: 2, kind: SpawnKind::HealingPotion },
        Spawn { x: 3, y: 3, kind: SpawnKind::HealingPotion },
        Spawn { x: 3, y: 3, kind: SpawnKind::Orc },
    ];
    place_objects(&spawns, &map, &mut objects);
    let names: Vec<&str> = objects.iter().map(|o| o.name.as_str()).collect();
    assert_eq!(names, vec!["player", "troll", "healing potion", "orc"]);
    assert_eq!(objects[1].pos(), (2, 2));
    assert_eq!(objects[2].pos(), (3, 3));
    assert_eq!(objects[3].pos(), (3, 3));
}
