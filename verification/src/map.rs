use vstd::prelude::*;

use crate::types::Object;
use crate::types::TileMap;

verus! {

/// Whether `(x, y)` names a cell of the map.
pub open spec fn in_map(map: &TileMap, x: int, y: int) -> bool {
    &&& 0 <= x < map@.len()
    &&& 0 <= y < map@[x]@.len()
}

/// Whether some blocking object stands at `(x, y)`.
pub open spec fn occupied_at(objects: Seq<Object>, x: int, y: int) -> bool {
    exists|i: int|
        0 <= i < objects.len() && #[trigger] objects[i].blocks && objects[i].x == x && objects[i].y
            == y
}

/// Whether nothing can step onto `(x, y)`: a blocking tile, or a blocking object there.
pub open spec fn blocked_at(map: &TileMap, objects: Seq<Object>, x: int, y: int) -> bool {
    map@[x]@[y].blocked || occupied_at(objects, x, y)
}

pub fn is_blocked(x: i32, y: i32, map: &TileMap, objects: &[Object]) -> (b: bool)
    requires
        in_map(map, x as int, y as int),
    ensures
        b == blocked_at(map, objects@, x as int, y as int),
{
    if map[x as usize][y as usize].blocked {
        return true;
    }
    let mut i: usize = 0;
    while i < objects.len()
        invariant
            i <= objects@.len(),
            forall|j: int|
                0 <= j < i ==> !(#[trigger] objects@[j].blocks && objects@[j].x == x
                    && objects@[j].y == y),
        decreases objects@.len() - i,
    {
        if objects[i].blocks && objects[i].x == x && objects[i].y == y {
            return true;
        }
        i = i + 1;
    }
    false
}

} // verus!
