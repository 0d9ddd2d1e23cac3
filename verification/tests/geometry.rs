use roguelike::color::{black, color_dark_ground, color_dark_wall, color_light_ground, color_light_wall, Color};
use roguelike::render::{background_color, draw_order, fighter_hp, get_names_under_mouse, reveal_tile};
use roguelike::text::append_decimal;
use roguelike::types::{DeathCallback, Fighter, Messages, Object, PlayerAction, Rect, Tile};

#[test]
fn rect_new_and_centre() {
    let r = Rect::new(2, 3, 10, 5);
    assert_eq!((r.x1, r.y1, r.x2, r.y2), (2, 3, 12, 8));
    assert_eq!(r.centre(), (7, 5));
    let (cx, cy) = r.centre();
    assert!(r.x1 <= cx && cx <= r.x2 && r.y1 <= cy && cy <= r.y2);
    let n = Rect::new(-5, -4, 2, 1);
    assert_eq!(n.centre(), (-4, -3));
}

#[test]
fn centre_rounds_toward_zero() {
    let r = Rect { x1: -3, y1: -1, x2: 0, y2: 0 };
    assert_eq!(r.centre(), (-1, 0));
}

#[test]
fn rect_intersects() {
    let a = Rect::new(0, 0, 4, 4);
    let b = Rect::new(4, 4, 2, 2);
    let c = Rect::new(5, 0, 2, 2);
    assert!(a.intersects(&b));
    assert!(b.intersects(&a));
    assert!(!a.intersects(&c));
    assert!(!c.intersects(&a));
    assert!(a.intersects(&a));
}

#[test]
fn tiles() {
    let e = Tile::empty();
    assert!(!e.blocked && !e.block_sight && !e.explored);
    let w = Tile::wall();
    assert!(w.blocked && w.block_sight && !w.explored);
}

#[test]
fn object_new_pos_and_set_pos() {
    let mut o = Object::new(3, 4, '@', "player", black(), true);
    assert_eq!(o.pos(), (3, 4));
    assert_eq!(o.name, "player");
    assert!(!o.alive);
    assert!(o.fighter.is_none() && o.ai.is_none() && o.item.is_none());
    o.set_pos(7, -1);
    assert_eq!(o.pos(), (7, -1));
    assert_eq!(o.char, '@');
}

#[test]
fn decimal_notation() {
    for (n, s) in [(0u32, "0"), (7, "7"), (10, "10"), (1234567, "1234567"), (u32::MAX, "4294967295")] {
        let mut out = String::from("x");
        append_decimal(&mut out, n);
        assert_eq!(out, format!("x{}", s));
    }
}

#[test]
fn background_colours() {
    assert_eq!(background_color(false, true), color_dark_wall());
    assert_eq!(background_color(true, true), color_light_wall());
    assert_eq!(background_color(false, false), color_dark_ground());
    assert_eq!(background_color(true, false), color_light_ground());
    assert_eq!(color_dark_wall(), Color { r: 0, g: 0, b: 100 });
    assert_eq!(color_light_ground(), Color { r: 200, g: 180, b: 50 });
}

#[test]
fn tiles_in_view_become_explored() {
    let mut map = vec![vec![Tile::empty(); 3]; 3];
    assert!(!reveal_tile(&mut map, 1, 2, false));
    assert!(!map[1][2].explored);
    assert!(reveal_tile(&mut map, 1, 2, true));
    assert!(map[1][2].explored);
    assert!(reveal_tile(&mut map, 1, 2, false));
    assert!(!map[2][1].explored);
}

#[test]
fn blocking_objects_are_drawn_last() {
    let objects = vec![
        Object::new(0, 0, '@', "player", black(), true),
        Object::new(1, 0, '!', "potion", black(), false),
        Object::new(2, 0, 'o', "orc", black(), true),
        Object::new(3, 0, '%', "corpse", black(), false),
        Object::new(4, 0, 'T', "troll", black(), true),
    ];
    let visible = vec![true, true, true, true, false];
    assert_eq!(draw_order(&objects, &visible), vec![1, 3, 0, 2]);
}

#[test]
fn names_under_the_mouse() {
    let objects = vec![
        Object::new(1, 1, '@', "player", black(), true),
        Object::new(2, 2, '!', "potion", black(), false),
        Object::new(2, 2, '%', "orc corpse", black(), false),
        Object::new(2, 2, 'o', "hidden orc", black(), true),
    ];
    let visible = vec![true, true, true, false];
    assert_eq!(get_names_under_mouse(2, 2, &objects, &visible), "potion, orc corpse");
    assert_eq!(get_names_under_mouse(1, 1, &objects, &visible), "player");
    assert_eq!(get_names_under_mouse(5, 5, &objects, &visible), "");
}

#[test]
fn hp_of_the_panel() {
    let mut o = Object::new(1, 1, '@', "player", black(), true);
    assert_eq!(fighter_hp(&o), (0, 0));
    o.fighter = Some(Fighter { max_hp: 30, hp: 12, defence: 2, attack: 5, on_death: DeathCallback::Player });
    assert_eq!(fighter_hp(&o), (12, 30));
}

#[test]
fn message_log() {
    let mut m = Messages::new();
    assert_eq!(m.len(), 0);
    m.add("hello".to_string(), black());
    m.add("world".to_string(), Color { r: 1, g: 2, b: 3 });
    assert_eq!(m.len(), 2);
    assert_eq!(m.text(0), "hello");
    assert_eq!(m.color(1), Color { r: 1, g: 2, b: 3 });
    assert_ne!(PlayerAction::TookTurn, PlayerAction::Exit);
}
