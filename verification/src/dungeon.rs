use vstd::prelude::*;

use crate::color::rgb;
use crate::color::Color;
use crate::consts::PLAYER;
use crate::map::blocked_at;
use crate::map::is_blocked;
use crate::map::occupied_at;
use crate::types::Ai;
use crate::types::DeathCallback;
use crate::types::Fighter;
use crate::types::Item;
use crate::map::in_map;
use crate::types::moved_to;
use crate::types::Object;
use crate::types::Rect;
use crate::types::Tile;
use crate::types::TileMap;

verus! {

/// The tile of open floor.
pub open spec fn floor() -> Tile {
    Tile { blocked: false, block_sight: false, explored: false }
}

/// Whether `(x, y)` lies inside `room`, its walls left out.
pub open spec fn in_room_interior(room: Rect, x: int, y: int) -> bool {
    room.x1 < x < room.x2 && room.y1 < y < room.y2
}

/// Whether `(x, y)` lies on the row `y` between columns `x1` and `x2`, both included.
pub open spec fn on_h_tunnel(x1: int, x2: int, y0: int, x: int, y: int) -> bool {
    y == y0 && ((x1 <= x <= x2) || (x2 <= x <= x1))
}

/// Whether `(x, y)` lies on the column `x` between rows `y1` and `y2`, both included.
pub open spec fn on_v_tunnel(y1: int, y2: int, x0: int, x: int, y: int) -> bool {
    x == x0 && ((y1 <= y <= y2) || (y2 <= y <= y1))
}

/// Whether `new` is `map` with the cells that `carved` names turned to floor,
/// and nothing else changed.
pub open spec fn carved_from(new: Seq<Vec<Tile>>, map: Seq<Vec<Tile>>, carved: spec_fn(int, int) -> bool) -> bool {
    &&& new.len() == map.len()
    &&& forall|x: int| 0 <= x < map.len() ==> #[trigger] new[x]@.len() == map[x]@.len()
    &&& forall|x: int, y: int|
        0 <= x < map.len() && 0 <= y < map[x]@.len() ==> #[trigger] new[x]@[y] == if carved(x, y) {
            floor()
        } else {
            map[x]@[y]
        }
}

fn set_floor(map: &mut TileMap, x: usize, y: usize)
    requires
        in_map(old(map), x as int, y as int),
    ensures
        carved_from(final(map)@, old(map)@, |i: int, j: int| i == x && j == y),
{
    map[x][y] = Tile::empty();
    assert forall|i: int, j: int|
        0 <= i < old(map)@.len() && 0 <= j < old(map)@[i]@.len() implies #[trigger] map@[i]@[j]
        == if i == x && j == y {
        floor()
    } else {
        old(map)@[i]@[j]
    } by {}
}

/// Turns the inside of `room` into floor.
pub fn create_room(room: &Rect, map: &mut TileMap)
    requires
        room.x1 < i32::MAX,
        room.x1 + 1 < room.x2 ==> room.y1 < i32::MAX,
        forall|x: int, y: int| #[trigger] in_room_interior(*room, x, y) ==> in_map(old(map), x, y),
    ensures
        carved_from(final(map)@, old(map)@, |x: int, y: int| in_room_interior(*room, x, y)),
{
    let mut x = room.x1 + 1;
    while x < room.x2
        invariant
            room.x1 < x,
            room.x1 + 1 < room.x2 ==> room.y1 < i32::MAX,
            x <= room.x2 || x == room.x1 + 1,
            forall|i: int, j: int| #[trigger] in_room_interior(*room, i, j) ==> in_map(old(map), i, j),
            carved_from(map@, old(map)@, |i: int, j: int| in_room_interior(*room, i, j) && i < x),
        decreases room.x2 - x,
    {
        let mut y = room.y1 + 1;
        while y < room.y2
            invariant
                room.x1 < x < room.x2,
                room.y1 < y,
                y <= room.y2 || y == room.y1 + 1,
                forall|i: int, j: int| #[trigger] in_room_interior(*room, i, j) ==> in_map(old(map), i, j),
                carved_from(
                    map@,
                    old(map)@,
                    |i: int, j: int| in_room_interior(*room, i, j) && (i < x || (i == x && j < y)),
                ),
            decreases room.y2 - y,
        {
            assert(in_room_interior(*room, x as int, y as int));
            let ghost before = map@;
            set_floor(map, x as usize, y as usize);
            assert(carved_from(
                map@,
                old(map)@,
                |i: int, j: int| in_room_interior(*room, i, j) && (i < x || (i == x && j < y + 1)),
            )) by {
                assert forall|i: int| 0 <= i < old(map)@.len() implies #[trigger] map@[i]@.len()
                    == old(map)@[i]@.len() by {
                    assert(before[i]@.len() == old(map)@[i]@.len());
                }
                assert forall|i: int, j: int|
                    0 <= i < old(map)@.len() && 0 <= j < old(map)@[i]@.len() implies #[trigger] map@[i]@[j]
                    == if in_room_interior(*room, i, j) && (i < x || (i == x && j < y + 1)) {
                    floor()
                } else {
                    old(map)@[i]@[j]
                } by {
                    assert(before[i]@.len() == old(map)@[i]@.len());
                    assert(before[i]@[j] == if in_room_interior(*room, i, j) && (i < x || (i == x
                        && j < y)) {
                        floor()
                    } else {
                        old(map)@[i]@[j]
                    });
                }
            }
            y = y + 1;
        }
        assert(carved_from(
            map@,
            old(map)@,
            |i: int, j: int| in_room_interior(*room, i, j) && i < x + 1,
        )) by {
            assert forall|i: int, j: int|
                0 <= i < old(map)@.len() && 0 <= j < old(map)@[i]@.len() implies #[trigger] map@[i]@[j]
                == if in_room_interior(*room, i, j) && i < x + 1 {
                floor()
            } else {
                old(map)@[i]@[j]
            } by {
                assert(map@[i]@[j] == if in_room_interior(*room, i, j) && (i < x || (i == x && j < y)) {
                    floor()
                } else {
                    old(map)@[i]@[j]
                });
            }
        }
        x = x + 1;
    }
    assert(carved_from(map@, old(map)@, |i: int, j: int| in_room_interior(*room, i, j))) by {
        assert forall|i: int, j: int|
            0 <= i < old(map)@.len() && 0 <= j < old(map)@[i]@.len() implies #[trigger] map@[i]@[j]
            == if in_room_interior(*room, i, j) {
            floor()
        } else {
            old(map)@[i]@[j]
        } by {
            assert(map@[i]@[j] == if in_room_interior(*room, i, j) && i < x {
                floor()
            } else {
                old(map)@[i]@[j]
            });
        }
    }
}

/// Turns row `y` between columns `x1` and `x2` (both included) into floor.
pub fn create_h_tunnel(x1: i32, x2: i32, y: i32, map: &mut TileMap)
    requires
        x1 < i32::MAX,
        x2 < i32::MAX,
        forall|x: int, j: int| #[trigger] on_h_tunnel(x1 as int, x2 as int, y as int, x, j) ==> in_map(old(map), x, j),
    ensures
        carved_from(final(map)@, old(map)@, |i: int, j: int| on_h_tunnel(x1 as int, x2 as int, y as int, i, j)),
{
    let lo = if x1 < x2 { x1 } else { x2 };
    let hi = if x1 < x2 { x2 } else { x1 };
    let mut x = lo;
    while x < hi + 1
        invariant
            lo <= x <= hi + 1,
            lo == (if x1 < x2 { x1 } else { x2 }),
            hi == (if x1 < x2 { x2 } else { x1 }),
            hi < i32::MAX,
            forall|i: int, j: int| #[trigger] on_h_tunnel(x1 as int, x2 as int, y as int, i, j) ==> in_map(old(map), i, j),
            carved_from(map@, old(map)@, |i: int, j: int| on_h_tunnel(x1 as int, x2 as int, y as int, i, j) && i < x),
        decreases hi + 1 - x,
    {
        assert(on_h_tunnel(x1 as int, x2 as int, y as int, x as int, y as int));
        assert(map@[x as int]@.len() == old(map)@[x as int]@.len());
        let ghost before = map@;
        set_floor(map, x as usize, y as usize);
        assert(carved_from(map@, old(map)@, |i: int, j: int| on_h_tunnel(x1 as int, x2 as int, y as int, i, j) && i < x + 1)) by {
            assert forall|i: int| 0 <= i < old(map)@.len() implies #[trigger] map@[i]@.len()
                == old(map)@[i]@.len() by {
                assert(before[i]@.len() == old(map)@[i]@.len());
            }
            assert forall|i: int, j: int|
                0 <= i < old(map)@.len() && 0 <= j < old(map)@[i]@.len() implies #[trigger] map@[i]@[j]
                == if on_h_tunnel(x1 as int, x2 as int, y as int, i, j) && i < x + 1 {
                floor()
            } else {
                old(map)@[i]@[j]
            } by {
                assert(before[i]@.len() == old(map)@[i]@.len());
                assert(before[i]@[j] == if on_h_tunnel(x1 as int, x2 as int, y as int, i, j) && i < x {
                    floor()
                } else {
                    old(map)@[i]@[j]
                });
            }
        }
        x = x + 1;
    }
    assert(carved_from(map@, old(map)@, |i: int, j: int| on_h_tunnel(x1 as int, x2 as int, y as int, i, j))) by {
        assert forall|i: int, j: int|
            0 <= i < old(map)@.len() && 0 <= j < old(map)@[i]@.len() implies #[trigger] map@[i]@[j]
            == if on_h_tunnel(x1 as int, x2 as int, y as int, i, j) {
            floor()
        } else {
            old(map)@[i]@[j]
        } by {
            assert(map@[i]@[j] == if on_h_tunnel(x1 as int, x2 as int, y as int, i, j) && i < x {
                floor()
            } else {
                old(map)@[i]@[j]
            });
        }
    }
}

/// Turns column `x` between rows `y1` and `y2` (both included) into floor.
pub fn create_v_tunnel(y1: i32, y2: i32, x: i32, map: &mut TileMap)
    requires
        y1 < i32::MAX,
        y2 < i32::MAX,
        forall|i: int, y: int| #[trigger] on_v_tunnel(y1 as int, y2 as int, x as int, i, y) ==> in_map(old(map), i, y),
    ensures
        carved_from(final(map)@, old(map)@, |i: int, j: int| on_v_tunnel(y1 as int, y2 as int, x as int, i, j)),
{
    let lo = if y1 < y2 { y1 } else { y2 };
    let hi = if y1 < y2 { y2 } else { y1 };
    let mut y = lo;
    while y < hi + 1
        invariant
            lo <= y <= hi + 1,
            lo == (if y1 < y2 { y1 } else { y2 }),
            hi == (if y1 < y2 { y2 } else { y1 }),
            hi < i32::MAX,
            forall|i: int, j: int| #[trigger] on_v_tunnel(y1 as int, y2 as int, x as int, i, j) ==> in_map(old(map), i, j),
            carved_from(map@, old(map)@, |i: int, j: int| on_v_tunnel(y1 as int, y2 as int, x as int, i, j) && j < y),
        decreases hi + 1 - y,
    {
        assert(on_v_tunnel(y1 as int, y2 as int, x as int, x as int, y as int));
        assert(map@[x as int]@.len() == old(map)@[x as int]@.len());
        let ghost before = map@;
        set_floor(map, x as usize, y as usize);
        assert(carved_from(map@, old(map)@, |i: int, j: int| on_v_tunnel(y1 as int, y2 as int, x as int, i, j) && j < y + 1)) by {
            assert forall|i: int| 0 <= i < old(map)@.len() implies #[trigger] map@[i]@.len()
                == old(map)@[i]@.len() by {
                assert(before[i]@.len() == old(map)@[i]@.len());
            }
            assert forall|i: int, j: int|
                0 <= i < old(map)@.len() && 0 <= j < old(map)@[i]@.len() implies #[trigger] map@[i]@[j]
                == if on_v_tunnel(y1 as int, y2 as int, x as int, i, j) && j < y + 1 {
                floor()
            } else {
                old(map)@[i]@[j]
            } by {
                assert(before[i]@.len() == old(map)@[i]@.len());
                assert(before[i]@[j] == if on_v_tunnel(y1 as int, y2 as int, x as int, i, j) && j < y {
                    floor()
                } else {
                    old(map)@[i]@[j]
                });
            }
        }
        y = y + 1;
    }
    assert(carved_from(map@, old(map)@, |i: int, j: int| on_v_tunnel(y1 as int, y2 as int, x as int, i, j))) by {
        assert forall|i: int, j: int|
            0 <= i < old(map)@.len() && 0 <= j < old(map)@[i]@.len() implies #[trigger] map@[i]@[j]
            == if on_v_tunnel(y1 as int, y2 as int, x as int, i, j) {
            floor()
        } else {
            old(map)@[i]@[j]
        } by {
            assert(map@[i]@[j] == if on_v_tunnel(y1 as int, y2 as int, x as int, i, j) && j < y {
                floor()
            } else {
                old(map)@[i]@[j]
            });
        }
    }
}

/// The wall tile.
pub open spec fn wall() -> Tile {
    Tile { blocked: true, block_sight: true, explored: false }
}

/// A room that the dungeon may get, and how a tunnel reaches it from the room
/// dug before it: along the row first, or along the column first.
#[derive(Clone, Copy, Debug, PartialEq, Eq, Structural)]
pub struct RoomPlan {
    pub room: Rect,
    pub horizontal_first: bool,
}

/// The centre of `room`, as `Rect::centre` computes it.
pub open spec fn centre_of(room: Rect) -> (int, int) {
    (
        crate::types::half_toward_zero(room.x1 + room.x2),
        crate::types::half_toward_zero(room.y1 + room.y2),
    )
}

/// Whether `(x, y)` lies on the tunnel that joins the room of `prev` to that of `next`.
pub open spec fn on_tunnel(prev: RoomPlan, next: RoomPlan, x: int, y: int) -> bool {
    let (px, py) = centre_of(prev.room);
    let (nx, ny) = centre_of(next.room);
    if next.horizontal_first {
        on_h_tunnel(px, nx, py, x, y) || on_v_tunnel(py, ny, nx, x, y)
    } else {
        on_v_tunnel(py, ny, px, x, y) || on_h_tunnel(px, nx, ny, x, y)
    }
}

/// The plans among the first `n` whose rooms are dug: those that meet no room dug before.
pub open spec fn accepted_plans(plans: Seq<RoomPlan>, n: int) -> Seq<RoomPlan>
    decreases n,
{
    if n <= 0 {
        Seq::empty()
    } else {
        let before = accepted_plans(plans, n - 1);
        if exists|k: int| 0 <= k < before.len() && #[trigger] plans[n - 1].room.meets(before[k].room) {
            before
        } else {
            before.push(plans[n - 1])
        }
    }
}

/// Whether `(x, y)` is dug by the first `n` of the `rooms`: inside one of them, or on
/// the tunnel from one of them to the next.
pub open spec fn dug(rooms: Seq<RoomPlan>, n: int, x: int, y: int) -> bool
    decreases n,
{
    if n <= 0 {
        false
    } else {
        ||| dug(rooms, n - 1, x, y)
        ||| in_room_interior(rooms[n - 1].room, x, y)
        ||| (n >= 2 && on_tunnel(rooms[n - 2], rooms[n - 1], x, y))
    }
}

proof fn lemma_dug_prefix(rooms: Seq<RoomPlan>, p: RoomPlan, n: int, x: int, y: int)
    requires
        0 <= n <= rooms.len(),
    ensures
        dug(rooms.push(p), n, x, y) == dug(rooms, n, x, y),
    decreases n,
{
    if n > 0 {
        lemma_dug_prefix(rooms, p, n - 1, x, y);
    }
}

/// Whether every room of `plans` lies on a `width` by `height` map, with a
/// centre that can be computed within `i32`.
pub open spec fn plans_fit(plans: Seq<RoomPlan>, width: int, height: int) -> bool {
    forall|k: int|
        0 <= k < plans.len() ==> {
            let r = #[trigger] plans[k].room;
            &&& 0 <= r.x1 <= r.x2 < width
            &&& 0 <= r.y1 <= r.y2 < height
            &&& r.x1 + r.x2 <= i32::MAX
            &&& r.y1 + r.y2 <= i32::MAX
        }
}

proof fn lemma_accepted_fit(plans: Seq<RoomPlan>, width: int, height: int, n: int)
    requires
        plans_fit(plans, width, height),
        0 <= n <= plans.len(),
    ensures
        plans_fit(accepted_plans(plans, n), width, height),
        accepted_plans(plans, n).len() <= n,
    decreases n,
{
    if n > 0 {
        lemma_accepted_fit(plans, width, height, n - 1);
        let before = accepted_plans(plans, n - 1);
        if !(exists|k: int| 0 <= k < before.len() && #[trigger] plans[n - 1].room.meets(before[k].room)) {
            assert(accepted_plans(plans, n) == before.push(plans[n - 1]));
        }
    }
}

fn wall_map(width: usize, height: usize) -> (map: TileMap)
    ensures
        map@.len() == width,
        forall|x: int| 0 <= x < width ==> #[trigger] map@[x]@.len() == height,
        forall|x: int, y: int| 0 <= x < width && 0 <= y < height ==> #[trigger] map@[x]@[y] == wall(),
{
    let mut map: TileMap = Vec::new();
    let mut x: usize = 0;
    while x < width
        invariant
            x <= width,
            map@.len() == x,
            forall|i: int| 0 <= i < x ==> #[trigger] map@[i]@.len() == height,
            forall|i: int, j: int| 0 <= i < x && 0 <= j < height ==> #[trigger] map@[i]@[j] == wall(),
        decreases width - x,
    {
        let mut column: Vec<Tile> = Vec::new();
        let mut y: usize = 0;
        while y < height
            invariant
                y <= height,
                column@.len() == y,
                forall|j: int| 0 <= j < y ==> #[trigger] column@[j] == wall(),
            decreases height - y,
        {
            column.push(Tile::wall());
            y = y + 1;
        }
        map.push(column);
        x = x + 1;
    }
    map
}

fn meets_any(room: &Rect, rooms: &Vec<RoomPlan>) -> (b: bool)
    ensures
        b == exists|k: int| 0 <= k < rooms@.len() && #[trigger] room.meets(rooms@[k].room),
{
    let mut i: usize = 0;
    while i < rooms.len()
        invariant
            i <= rooms@.len(),
            forall|k: int| 0 <= k < i ==> !#[trigger] room.meets(rooms@[k].room),
        decreases rooms@.len() - i,
    {
        if room.intersects(&rooms[i].room) {
            return true;
        }
        i = i + 1;
    }
    false
}

/// Digs the dungeon: a `width` by `height` map of walls into which every planned
/// room that meets no room dug before is dug, each joined by a tunnel to the one
/// dug just before it. The player is put at the centre of the first room.
pub fn make_map(plans: &[RoomPlan], width: usize, height: usize, objects: &mut [Object]) -> (map: TileMap)
    requires
        old(objects)@.len() > PLAYER,
        width <= i32::MAX,
        height <= i32::MAX,
        plans_fit(plans@, width as int, height as int),
    ensures
        ({
            let rooms = accepted_plans(plans@, plans@.len() as int);
            &&& map@.len() == width
            &&& forall|x: int| 0 <= x < width ==> #[trigger] map@[x]@.len() == height
            &&& forall|x: int, y: int|
                0 <= x < width && 0 <= y < height ==> #[trigger] map@[x]@[y] == if dug(
                    rooms,
                    rooms.len() as int,
                    x,
                    y,
                ) {
                    floor()
                } else {
                    wall()
                }
            &&& if rooms.len() > 0 {
                let (cx, cy) = centre_of(rooms[0].room);
                final(objects)@ == old(objects)@.update(
                    PLAYER as int,
                    moved_to(old(objects)@[PLAYER as int], cx as i32, cy as i32),
                )
            } else {
                final(objects)@ == old(objects)@
            }
        }),
{
    let mut map = wall_map(width, height);
    let mut rooms: Vec<RoomPlan> = Vec::new();
    let mut i: usize = 0;
    while i < plans.len()
        invariant
            i <= plans@.len(),
            width <= i32::MAX,
            height <= i32::MAX,
            plans_fit(plans@, width as int, height as int),
            rooms@ == accepted_plans(plans@, i as int),
            old(objects)@.len() > PLAYER,
            map@.len() == width,
            forall|x: int| 0 <= x < width ==> #[trigger] map@[x]@.len() == height,
            forall|x: int, y: int|
                0 <= x < width && 0 <= y < height ==> #[trigger] map@[x]@[y] == if dug(
                    rooms@,
                    rooms@.len() as int,
                    x,
                    y,
                ) {
                    floor()
                } else {
                    wall()
                },
            if rooms@.len() > 0 {
                let (cx, cy) = centre_of(rooms@[0].room);
                objects@ == old(objects)@.update(
                    PLAYER as int,
                    moved_to(old(objects)@[PLAYER as int], cx as i32, cy as i32),
                )
            } else {
                objects@ == old(objects)@
            },
        decreases plans@.len() - i,
    {
        let plan = plans[i];
        proof {
            lemma_accepted_fit(plans@, width as int, height as int, i as int);
            assert(plans_fit(plans@, width as int, height as int));
            let r = plans@[i as int].room;
            assert(0 <= r.x1 <= r.x2 < width && 0 <= r.y1 <= r.y2 < height && r.x1 + r.x2 <= i32::MAX && r.y1 + r.y2 <= i32::MAX);
        }
        if !meets_any(&plan.room, &rooms) {
            let ghost map0 = map@;
            create_room(&plan.room, &mut map);
            let ghost map1 = map@;
            let (new_x, new_y) = plan.room.centre();
            if rooms.len() == 0 {
                objects[PLAYER].set_pos(new_x, new_y);
            } else {
                let prev = rooms[rooms.len() - 1];
                let (prev_x, prev_y) = prev.room.centre();
                proof {
                    assert(plans_fit(rooms@, width as int, height as int));
                    let r = rooms@[rooms@.len() - 1].room;
                    assert(0 <= r.x1 <= r.x2 < width && 0 <= r.y1 <= r.y2 < height && r.x1 + r.x2 <= i32::MAX && r.y1 + r.y2 <= i32::MAX);
                }
                if plan.horizontal_first {
                    create_h_tunnel(prev_x, new_x, prev_y, &mut map);
                    create_v_tunnel(prev_y, new_y, new_x, &mut map);
                } else {
                    create_v_tunnel(prev_y, new_y, prev_x, &mut map);
                    create_h_tunnel(prev_x, new_x, new_y, &mut map);
                }
            }
            let ghost old_rooms = rooms@;
            rooms.push(plan);
            proof {
                assert forall|x: int, y: int|
                    0 <= x < width && 0 <= y < height implies #[trigger] map@[x]@[y] == if dug(
                        rooms@,
                        rooms@.len() as int,
                        x,
                        y,
                    ) {
                        floor()
                    } else {
                        wall()
                    } by {
                    lemma_dug_prefix(old_rooms, plan, old_rooms.len() as int, x, y);
                    assert(map0[x]@[y] == if dug(old_rooms, old_rooms.len() as int, x, y) {
                        floor()
                    } else {
                        wall()
                    });
                    assert(map1[x]@[y] == if in_room_interior(plan.room, x, y) {
                        floor()
                    } else {
                        map0[x]@[y]
                    });
                }
            }
        }
        i = i + 1;
    }
    map
}

/// What may be put on the map.
#[derive(Clone, Copy, Debug, PartialEq, Eq, Structural)]
pub enum SpawnKind {
    Orc,
    Troll,
    HealingPotion,
}

/// A request to put a thing of kind `kind` at `(x, y)`.
#[derive(Clone, Copy, Debug, PartialEq, Eq, Structural)]
pub struct Spawn {
    pub x: i32,
    pub y: i32,
    pub kind: SpawnKind,
}

/// Whether things of this kind block the way.
pub open spec fn kind_blocks(kind: SpawnKind) -> bool {
    kind != SpawnKind::HealingPotion
}

/// Whether `o` is the thing that `s` asks for, standing where `s` says.
pub open spec fn is_spawn_of(o: Object, s: Spawn) -> bool {
    &&& o.x == s.x
    &&& o.y == s.y
    &&& o.blocks == kind_blocks(s.kind)
    &&& match s.kind {
        SpawnKind::Orc => {
            &&& o.char == 'o'
            &&& o.name@ == "orc"@
            &&& o.color == rgb(63, 127, 63)
            &&& o.alive
            &&& o.fighter == Some(
                Fighter { max_hp: 10, hp: 10, defence: 0, attack: 3, on_death: DeathCallback::Monster },
            )
            &&& o.ai == Some(Ai::Basic)
            &&& o.item.is_none()
        },
        SpawnKind::Troll => {
            &&& o.char == 'T'
            &&& o.name@ == "troll"@
            &&& o.color == rgb(0, 127, 0)
            &&& o.alive
            &&& o.fighter == Some(
                Fighter { max_hp: 16, hp: 16, defence: 1, attack: 4, on_death: DeathCallback::Monster },
            )
            &&& o.ai == Some(Ai::Basic)
            &&& o.item.is_none()
        },
        SpawnKind::HealingPotion => {
            &&& o.char == '!'
            &&& o.name@ == "healing potion"@
            &&& o.color == rgb(127, 0, 255)
            &&& !o.alive
            &&& o.fighter.is_none()
            &&& o.ai.is_none()
            &&& o.item == Some(Item::Heal)
        },
    }
}

/// Makes the thing that `s` asks for.
pub fn spawn_object(s: Spawn) -> (o: Object)
    ensures
        is_spawn_of(o, s),
{
    match s.kind {
        SpawnKind::Orc => {
            let mut orc = Object::new(s.x, s.y, 'o', "orc", Color { r: 63, g: 127, b: 63 }, true);
            orc.fighter = Some(
                Fighter { max_hp: 10, hp: 10, defence: 0, attack: 3, on_death: DeathCallback::Monster },
            );
            orc.ai = Some(Ai::Basic);
            orc.alive = true;
            orc
        },
        SpawnKind::Troll => {
            let mut troll = Object::new(s.x, s.y, 'T', "troll", Color { r: 0, g: 127, b: 0 }, true);
            troll.fighter = Some(
                Fighter { max_hp: 16, hp: 16, defence: 1, attack: 4, on_death: DeathCallback::Monster },
            );
            troll.ai = Some(Ai::Basic);
            troll.alive = true;
            troll
        },
        SpawnKind::HealingPotion => {
            let mut potion = Object::new(
                s.x,
                s.y,
                '!',
                "healing potion",
                Color { r: 127, g: 0, b: 255 },
                false,
            );
            potion.item = Some(Item::Heal);
            potion
        },
    }
}

/// Whether a blocking thing among `placed` stands at `(x, y)`.
pub open spec fn placed_blocks_at(placed: Seq<Spawn>, x: int, y: int) -> bool {
    exists|j: int|
        0 <= j < placed.len() && kind_blocks(#[trigger] placed[j].kind) && placed[j].x == x
            && placed[j].y == y
}

/// The spawns among the first `n` that get placed next to `objects` on `map`:
/// each one whose place is not blocked by the map, by the objects or by a
/// blocking thing placed before it.
pub open spec fn placed_spawns(map: &TileMap, objects: Seq<Object>, spawns: Seq<Spawn>, n: int) -> Seq<Spawn>
    decreases n,
{
    if n <= 0 {
        Seq::empty()
    } else {
        let before = placed_spawns(map, objects, spawns, n - 1);
        let s = spawns[n - 1];
        if blocked_at(map, objects, s.x as int, s.y as int) || placed_blocks_at(before, s.x as int, s.y as int) {
            before
        } else {
            before.push(s)
        }
    }
}

/// Puts on the map each of `spawns` whose place is free when its turn comes.
pub fn place_objects(spawns: &[Spawn], map: &TileMap, objects: &mut Vec<Object>)
    requires
        forall|k: int| 0 <= k < spawns@.len() ==> in_map(map, #[trigger] spawns@[k].x as int, spawns@[k].y as int),
    ensures
        ({
            let placed = placed_spawns(map, old(objects)@, spawns@, spawns@.len() as int);
            &&& final(objects)@.len() == old(objects)@.len() + placed.len()
            &&& forall|i: int| 0 <= i < old(objects)@.len() ==> #[trigger] final(objects)@[i] == old(objects)@[i]
            &&& forall|j: int|
                0 <= j < placed.len() ==> is_spawn_of(
                    #[trigger] final(objects)@[old(objects)@.len() + j],
                    placed[j],
                )
        }),
{
    let ghost start = objects@;
    let mut i: usize = 0;
    while i < spawns.len()
        invariant
            i <= spawns@.len(),
            forall|k: int| 0 <= k < spawns@.len() ==> in_map(map, #[trigger] spawns@[k].x as int, spawns@[k].y as int),
            start == old(objects)@,
            ({
                let placed = placed_spawns(map, start, spawns@, i as int);
                &&& objects@.len() == start.len() + placed.len()
                &&& forall|k: int| 0 <= k < start.len() ==> #[trigger] objects@[k] == start[k]
                &&& forall|j: int|
                    0 <= j < placed.len() ==> is_spawn_of(#[trigger] objects@[start.len() + j], placed[j])
            }),
        decreases spawns@.len() - i,
    {
        let s = spawns[i];
        let ghost placed = placed_spawns(map, start, spawns@, i as int);
        proof {
            assert(in_map(map, spawns@[i as int].x as int, spawns@[i as int].y as int));
        }
        let blocked = is_blocked(s.x, s.y, map, objects.as_slice());
        proof {
            let x = s.x as int;
            let y = s.y as int;
            if occupied_at(objects@, x, y) {
                let k = choose|k: int|
                    0 <= k < objects@.len() && #[trigger] objects@[k].blocks && objects@[k].x == x
                        && objects@[k].y == y;
                if k < start.len() {
                    assert(start[k].blocks);
                    assert(occupied_at(start, x, y));
                } else {
                    let j = k - start.len();
                    assert(is_spawn_of(objects@[start.len() + j], placed[j]));
                    assert(kind_blocks(placed[j].kind));
                    assert(placed_blocks_at(placed, x, y));
                }
            }
            if occupied_at(start, x, y) {
                let k = choose|k: int|
                    0 <= k < start.len() && #[trigger] start[k].blocks && start[k].x == x
                        && start[k].y == y;
                assert(objects@[k].blocks);
            }
            if placed_blocks_at(placed, x, y) {
                let j = choose|j: int|
                    0 <= j < placed.len() && kind_blocks(#[trigger] placed[j].kind) && placed[j].x == x
                        && placed[j].y == y;
                assert(is_spawn_of(objects@[start.len() + j], placed[j]));
                assert(objects@[start.len() + j].blocks);
            }
            assert(blocked == (blocked_at(map, start, x, y) || placed_blocks_at(placed, x, y)));
        }
        if !blocked {
            objects.push(spawn_object(s));
        }
        i = i + 1;
    }
}

} // verus!
