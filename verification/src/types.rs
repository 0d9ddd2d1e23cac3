use vstd::prelude::*;

use crate::color::Color;
use crate::map::blocked_at;
use crate::map::is_blocked;

verus! {

/// An axis-aligned rectangle given by two corners.
#[derive(Clone, Copy, Debug, PartialEq, Eq, Structural)]
pub struct Rect {
    pub x1: i32,
    pub y1: i32,
    pub x2: i32,
    pub y2: i32,
}

/// Integer halving as Rust's `/ 2` computes it: rounded toward zero.
pub open spec fn half_toward_zero(n: int) -> int {
    if n >= 0 {
        n / 2
    } else {
        -((-n) / 2)
    }
}

impl Rect {
    /// Whether the two rectangles overlap or touch (their closed extents meet).
    pub open spec fn meets(self, other: Rect) -> bool {
        &&& self.x1 <= other.x2
        &&& self.x2 >= other.x1
        &&& self.y1 <= other.y2
        &&& self.y2 >= other.y1
    }

    pub fn new(x: i32, y: i32, w: i32, h: i32) -> (r: Self)
        requires
            i32::MIN <= x + w <= i32::MAX,
            i32::MIN <= y + h <= i32::MAX,
        ensures
            r.x1 == x,
            r.y1 == y,
            r.x2 == x + w,
            r.y2 == y + h,
    {
        Rect { x1: x, y1: y, x2: x + w, y2: y + h }
    }

    pub fn centre(&self) -> (c: (i32, i32))
        requires
            i32::MIN <= self.x1 + self.x2 <= i32::MAX,
            i32::MIN <= self.y1 + self.y2 <= i32::MAX,
        ensures
            c.0 == half_toward_zero(self.x1 + self.x2),
            c.1 == half_toward_zero(self.y1 + self.y2),
    {
        let c_x = (self.x1 + self.x2) / 2;
        let c_y = (self.y1 + self.y2) / 2;
        (c_x, c_y)
    }

    pub fn intersects(&self, other: &Rect) -> (b: bool)
        ensures
            b == self.meets(*other),
    {
        (self.x1 <= other.x2) && (self.x2 >= other.x1) && (self.y1 <= other.y2) && (self.y2
            >= other.y1)
    }
}

/// Whether two rectangles meet does not depend on the order in which they are asked.
pub proof fn lemma_meets_symmetric(a: Rect, b: Rect)
    ensures
        a.meets(b) == b.meets(a),
{
}

/// A rectangle whose corners are ordered meets itself.
pub proof fn lemma_meets_itself(a: Rect)
    requires
        a.x1 <= a.x2,
        a.y1 <= a.y2,
    ensures
        a.meets(a),
{
}

/// The centre of a rectangle whose corners are ordered lies within it.
pub proof fn lemma_centre_inside(a: Rect)
    requires
        a.x1 <= a.x2,
        a.y1 <= a.y2,
    ensures
        a.x1 <= half_toward_zero(a.x1 + a.x2) <= a.x2,
        a.y1 <= half_toward_zero(a.y1 + a.y2) <= a.y2,
{
}

/// One cell of the dungeon.
#[derive(Clone, Copy, Debug, PartialEq, Eq, Structural)]
pub struct Tile {
    pub blocked: bool,
    pub block_sight: bool,
    pub explored: bool,
}

impl Tile {
    pub fn empty() -> (t: Self)
        ensures
            !t.blocked,
            !t.block_sight,
            !t.explored,
    {
        Tile { blocked: false, block_sight: false, explored: false }
    }

    pub fn wall() -> (t: Self)
        ensures
            t.blocked,
            t.block_sight,
            !t.explored,
    {
        Tile { blocked: true, block_sight: true, explored: false }
    }
}

/// The dungeon, indexed first by column (`x`) and then by row (`y`).
pub type TileMap = Vec<Vec<Tile>>;

/// What the player's input amounted to.
#[derive(Clone, Copy, Debug, PartialEq, Eq, Structural)]
pub enum PlayerAction {
    TookTurn,
    DidntTakeTurn,
    Exit,
}

/// What happens to a fighter whose hit points run out.
#[derive(Clone, Copy, Debug, PartialEq, Eq, Structural)]
pub enum DeathCallback {
    Player,
    Monster,
}

/// Combat statistics.
#[derive(Clone, Copy, Debug, PartialEq, Eq, Structural)]
pub struct Fighter {
    pub max_hp: i32,
    pub hp: i32,
    pub defence: i32,
    pub attack: i32,
    pub on_death: DeathCallback,
}

/// How a monster decides what to do.
#[derive(Clone, Copy, Debug, PartialEq, Eq, Structural)]
pub enum Ai {
    Basic,
}

/// What an object does when it is used from the inventory.
#[derive(Clone, Copy, Debug, PartialEq, Eq, Structural)]
pub enum Item {
    Heal,
}

/// Anything on the map: the player, a monster, an item.
#[derive(Debug)]
pub struct Object {
    pub x: i32,
    pub y: i32,
    pub char: char,
    pub color: Color,
    pub name: String,
    pub blocks: bool,
    pub alive: bool,
    pub fighter: Option<Fighter>,
    pub ai: Option<Ai>,
    pub item: Option<Item>,
}

/// The object `o` standing at `(x, y)`.
pub open spec fn moved_to(o: Object, x: i32, y: i32) -> Object {
    Object { x: x, y: y, ..o }
}

impl Object {
    pub fn new(x: i32, y: i32, char: char, name: &str, color: Color, blocks: bool) -> (o: Self)
        ensures
            o.x == x,
            o.y == y,
            o.char == char,
            o.color == color,
            o.name@ == name@,
            o.blocks == blocks,
            !o.alive,
            o.fighter.is_none(),
            o.ai.is_none(),
            o.item.is_none(),
    {
        Object {
            x: x,
            y: y,
            char: char,
            color: color,
            name: String::from_str(name),
            blocks: blocks,
            alive: false,
            fighter: None,
            ai: None,
            item: None,
        }
    }

    pub fn pos(&self) -> (p: (i32, i32))
        ensures
            p == (self.x, self.y),
    {
        (self.x, self.y)
    }

    pub fn set_pos(&mut self, x: i32, y: i32)
        ensures
            *final(self) == moved_to(*old(self), x, y),
    {
        self.x = x;
        self.y = y;
    }
}

/// Whether `new` is what moving object `id` of `objects` by `(dx, dy)` makes of
/// them: the object steps there unless that place is blocked, and nothing else changes.
pub open spec fn moved_by(new: Seq<Object>, map: &TileMap, objects: Seq<Object>, id: int, dx: int, dy: int) -> bool {
    let o = objects[id];
    if blocked_at(map, objects, o.x + dx, o.y + dy) {
        new == objects
    } else {
        new == objects.update(id, moved_to(o, (o.x + dx) as i32, (o.y + dy) as i32))
    }
}

/// Moves object `id` by `(dx, dy)` unless the destination is blocked.
pub fn move_by(id: usize, dx: i32, dy: i32, map: &TileMap, objects: &mut [Object])
    requires
        id < old(objects)@.len(),
        i32::MIN <= old(objects)@[id as int].x + dx <= i32::MAX,
        i32::MIN <= old(objects)@[id as int].y + dy <= i32::MAX,
        crate::map::in_map(
            map,
            old(objects)@[id as int].x + dx,
            old(objects)@[id as int].y + dy,
        ),
    ensures
        moved_by(final(objects)@, map, old(objects)@, id as int, dx as int, dy as int),
{
    let (x, y) = objects[id].pos();
    if !is_blocked(x + dx, y + dy, map, objects) {
        objects[id].set_pos(x + dx, y + dy);
    }
}

/// The game's message log, oldest first.
pub struct Messages {
    messages: Vec<(String, Color)>,
}

impl View for Messages {
    type V = Seq<(Seq<char>, Color)>;

    closed spec fn view(&self) -> Seq<(Seq<char>, Color)> {
        self.messages@.map_values(|m: (String, Color)| (m.0@, m.1))
    }
}

impl Messages {
    pub fn new() -> (m: Self)
        ensures
            m@ == Seq::<(Seq<char>, Color)>::empty(),
    {
        let m = Messages { messages: Vec::new() };
        assert(m@ =~= Seq::<(Seq<char>, Color)>::empty());
        m
    }

    /// Appends a message to the log.
    pub fn add(&mut self, message: String, color: Color)
        ensures
            final(self)@ == old(self)@.push((message@, color)),
    {
        let ghost m = message@;
        self.messages.push((message, color));
        assert(self@ =~= old(self)@.push((m, color)));
    }

    pub fn len(&self) -> (n: usize)
        ensures
            n == self@.len(),
    {
        self.messages.len()
    }

    /// The text of message `i`.
    pub fn text(&self, i: usize) -> (t: &String)
        requires
            i < self@.len(),
        ensures
            t@ == self@[i as int].0,
    {
        &self.messages[i].0
    }

    /// The colour of message `i`.
    pub fn color(&self, i: usize) -> (c: Color)
        requires
            i < self@.len(),
        ensures
            c == self@[i as int].1,
    {
        self.messages[i].1
    }
}

/// The state of a game beyond its objects: the map, the message log and the inventory.
pub struct Game {
    pub map: TileMap,
    pub messages: Messages,
    pub inventory: Vec<Object>,
}

} // verus!
