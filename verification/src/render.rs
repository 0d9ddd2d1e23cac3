use vstd::prelude::*;

use crate::color::color_dark_ground;
use crate::color::color_dark_wall;
use crate::color::color_light_ground;
use crate::color::color_light_wall;
use crate::color::rgb;
use crate::color::Color;
use crate::map::in_map;
use crate::types::Object;
use crate::types::Tile;
use crate::types::TileMap;

verus! {

/// The background colour of a tile that is in view or not, and is a wall or not.
pub open spec fn background_of(visible: bool, wall: bool) -> Color {
    if wall {
        if visible {
            rgb(130, 110, 50)
        } else {
            rgb(0, 0, 100)
        }
    } else {
        if visible {
            rgb(200, 180, 50)
        } else {
            rgb(50, 50, 150)
        }
    }
}

pub fn background_color(visible: bool, wall: bool) -> (c: Color)
    ensures
        c == background_of(visible, wall),
{
    match (visible, wall) {
        (false, true) => color_dark_wall(),
        (true, true) => color_light_wall(),
        (false, false) => color_dark_ground(),
        (true, false) => color_light_ground(),
    }
}

/// Marks tile `(x, y)` explored when it is in view, and tells whether it is
/// explored, that is, whether its background is drawn.
pub fn reveal_tile(map: &mut TileMap, x: usize, y: usize, visible: bool) -> (explored: bool)
    requires
        in_map(old(map), x as int, y as int),
    ensures
        final(map)@.len() == old(map)@.len(),
        forall|i: int| 0 <= i < old(map)@.len() && i != x ==> #[trigger] final(map)@[i] == old(map)@[i],
        final(map)@[x as int]@ == old(map)@[x as int]@.update(
            y as int,
            (Tile {
                explored: old(map)@[x as int]@[y as int].explored || visible,
                ..old(map)@[x as int]@[y as int]
            }),
        ),
        explored == (old(map)@[x as int]@[y as int].explored || visible),
{
    if visible {
        map[x][y].explored = true;
    }
    map[x][y].explored
}

/// The hit points and the maximum of `o`'s fighter; `(0, 0)` without one.
pub fn fighter_hp(o: &Object) -> (hp: (i32, i32))
    ensures
        hp == (match o.fighter {
            Some(f) => (f.hp, f.max_hp),
            None => (0i32, 0i32),
        }),
{
    match o.fighter {
        Some(f) => (f.hp, f.max_hp),
        None => (0, 0),
    }
}

/// The indices below `n` of the objects in view whose `blocks` is `b`, in order.
pub open spec fn visible_with_blocks(objects: Seq<Object>, visible: Seq<bool>, b: bool, n: int) -> Seq<usize>
    decreases n,
{
    if n <= 0 {
        Seq::empty()
    } else {
        let rest = visible_with_blocks(objects, visible, b, n - 1);
        if visible[n - 1] && objects[n - 1].blocks == b {
            rest.push((n - 1) as usize)
        } else {
            rest
        }
    }
}

/// The order in which the objects in view are drawn: those that do not block
/// first, then those that do, each group in the order of `objects`.
pub open spec fn drawing_order(objects: Seq<Object>, visible: Seq<bool>) -> Seq<usize> {
    visible_with_blocks(objects, visible, false, objects.len() as int) + visible_with_blocks(
        objects,
        visible,
        true,
        objects.len() as int,
    )
}

fn push_visible_with_blocks(objects: &[Object], visible: &[bool], b: bool, out: &mut Vec<usize>)
    requires
        visible@.len() == objects@.len(),
    ensures
        final(out)@ == old(out)@ + visible_with_blocks(objects@, visible@, b, objects@.len() as int),
{
    let mut i: usize = 0;
    while i < objects.len()
        invariant
            i <= objects@.len(),
            visible@.len() == objects@.len(),
            out@ == old(out)@ + visible_with_blocks(objects@, visible@, b, i as int),
        decreases objects@.len() - i,
    {
        if visible[i] && objects[i].blocks == b {
            out.push(i);
        }
        proof {
            assert(out@ =~= old(out)@ + visible_with_blocks(objects@, visible@, b, i + 1));
        }
        i = i + 1;
    }
}

/// The indices of the objects in view (`visible[i]` tells whether object `i`
/// is), in the order in which they are drawn.
pub fn draw_order(objects: &[Object], visible: &[bool]) -> (order: Vec<usize>)
    requires
        visible@.len() == objects@.len(),
    ensures
        order@ == drawing_order(objects@, visible@),
{
    let mut order: Vec<usize> = Vec::new();
    push_visible_with_blocks(objects, visible, false, &mut order);
    push_visible_with_blocks(objects, visible, true, &mut order);
    assert(order@ =~= drawing_order(objects@, visible@));
    order
}

/// The elements of `list` with `sep` between each two.
pub open spec fn joined(list: Seq<Seq<char>>, sep: Seq<char>) -> Seq<char>
    decreases list.len(),
{
    if list.len() == 0 {
        Seq::empty()
    } else if list.len() == 1 {
        list[0]
    } else {
        joined(list.drop_last(), sep) + sep + list.last()
    }
}

/// The names of the objects below `n` that stand at `(x, y)` and are in view, in order.
pub open spec fn names_at(objects: Seq<Object>, visible: Seq<bool>, x: int, y: int, n: int) -> Seq<Seq<char>>
    decreases n,
{
    if n <= 0 {
        Seq::empty()
    } else {
        let rest = names_at(objects, visible, x, y, n - 1);
        let o = objects[n - 1];
        if o.x == x && o.y == y && visible[n - 1] {
            rest.push(o.name@)
        } else {
            rest
        }
    }
}

/// The names of the objects in view that stand at `(x, y)`, separated by `", "`.
pub fn get_names_under_mouse(x: i32, y: i32, objects: &[Object], visible: &[bool]) -> (names: String)
    requires
        visible@.len() == objects@.len(),
    ensures
        names@ == joined(names_at(objects@, visible@, x as int, y as int, objects@.len() as int), ", "@),
{
    let mut names = String::new();
    let mut count: usize = 0;
    let mut i: usize = 0;
    while i < objects.len()
        invariant
            i <= objects@.len(),
            visible@.len() == objects@.len(),
            count == names_at(objects@, visible@, x as int, y as int, i as int).len(),
            count <= i,
            names@ == joined(names_at(objects@, visible@, x as int, y as int, i as int), ", "@),
        decreases objects@.len() - i,
    {
        let ghost before = names_at(objects@, visible@, x as int, y as int, i as int);
        if objects[i].x == x && objects[i].y == y && visible[i] {
            let ghost list = before.push(objects@[i as int].name@);
            assert(list.drop_last() =~= before);
            if count > 0 {
                names.append(", ");
            }
            names.append(objects[i].name.as_str());
            count = count + 1;
            proof {
                if before.len() == 0 {
                    assert(names@ =~= joined(list, ", "@));
                } else {
                    assert(names@ =~= joined(list, ", "@));
                }
            }
        }
        i = i + 1;
    }
    names
}

} // verus!
