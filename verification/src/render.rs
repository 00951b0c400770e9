//! What the presentation layer is told to draw: how each tile is shaded,
//! which entities are drawn and in what order, and the player's hit points.

use vstd::prelude::*;
use crate::entity::{Color, Object};
use crate::fov::FovMap;
use crate::roster::PLAYER;
use crate::tile::Tile;

verus! {

/// How a tile is shaded: lit while in sight, dark when only remembered.
#[derive(Clone, Copy, Debug, PartialEq, Eq, Structural)]
pub enum Shade {
    DarkWall,
    DarkGround,
    LightWall,
    LightGround,
}

impl Shade {
    /// The color this shade is drawn in.
    pub open spec fn rgb(self) -> Color {
        match self {
            Shade::DarkWall => Color { r: 0, g: 0, b: 100 },
            Shade::DarkGround => Color { r: 50, g: 50, b: 150 },
            Shade::LightWall => Color { r: 130, g: 110, b: 50 },
            Shade::LightGround => Color { r: 200, g: 180, b: 50 },
        }
    }

    /// The color this shade is drawn in.
    pub fn color(self) -> (c: Color)
        ensures
            c == self.rgb(),
    {
        match self {
            Shade::DarkWall => Color { r: 0, g: 0, b: 100 },
            Shade::DarkGround => Color { r: 50, g: 50, b: 150 },
            Shade::LightWall => Color { r: 130, g: 110, b: 50 },
            Shade::LightGround => Color { r: 200, g: 180, b: 50 },
        }
    }
}

/// The shade of a tile that is drawn: by whether it is in sight and whether
/// it blocks sight.
pub open spec fn shade_of(visible: bool, wall: bool) -> Shade {
    if visible {
        if wall {
            Shade::LightWall
        } else {
            Shade::LightGround
        }
    } else {
        if wall {
            Shade::DarkWall
        } else {
            Shade::DarkGround
        }
    }
}

/// How to draw a tile, given whether it is in sight. A tile that is neither
/// in sight nor explored is not drawn at all.
pub fn tile_shade(visible: bool, tile: Tile) -> (shade: Option<Shade>)
    ensures
        shade == (if visible || tile.explored {
            Some(shade_of(visible, tile.block_sight))
        } else {
            None::<Shade>
        }),
{
    if !(visible || tile.explored) {
        return None;
    }
    let wall = tile.block_sight;
    let shade = match (visible, wall) {
        (false, true) => Shade::DarkWall,
        (false, false) => Shade::DarkGround,
        (true, true) => Shade::LightWall,
        (true, false) => Shade::LightGround,
    };
    Some(shade)
}

/// Whether the field of view has to be computed again: only when the player
/// no longer stands where it stood at the last computation.
pub fn fov_needs_recompute(previous_player_pos: (i32, i32), objects: &[Object]) -> (stale: bool)
    requires
        PLAYER < objects@.len(),
    ensures
        stale == !(previous_player_pos.0 == objects@[PLAYER as int].x && previous_player_pos.1
            == objects@[PLAYER as int].y),
{
    previous_player_pos.0 != objects[PLAYER].x || previous_player_pos.1 != objects[PLAYER].y
}

/// The entity is drawn in the pass for blocking entities, if `blocking`, or
/// in the pass for the others: it stands in sight and blocks as the pass asks.
pub open spec fn shown(o: Object, fov: &FovMap, blocking: bool) -> bool {
    o.blocks == blocking && fov.visible(o.x as int, o.y as int)
}

/// The entities among the first `n` of the roster that one pass draws, by
/// index, in roster order.
pub open spec fn pass(objects: Seq<Object>, fov: &FovMap, blocking: bool, n: int) -> Seq<usize>
    decreases n,
{
    if n <= 0 {
        Seq::empty()
    } else if shown(objects[n - 1], fov, blocking) {
        pass(objects, fov, blocking, n - 1).push((n - 1) as usize)
    } else {
        pass(objects, fov, blocking, n - 1)
    }
}

/// The entities to draw, by index, in drawing order: only those in sight,
/// the ones that do not block movement first and the blocking ones after
/// them, so that an actor is drawn over a corpse on the same tile. Within
/// each group the roster order is kept.
pub open spec fn drawing_order(objects: Seq<Object>, fov: &FovMap) -> Seq<usize> {
    pass(objects, fov, false, objects.len() as int) + pass(objects, fov, true, objects.len() as int)
}

/// One pass over the roster: the indices of the entities in sight that block
/// movement, or of those that do not, added to `order`.
fn draw_pass(objects: &[Object], fov: &FovMap, blocking: bool, order: &mut Vec<usize>)
    requires
        fov.wf(),
    ensures
        final(order)@ == old(order)@ + pass(objects@, fov, blocking, objects@.len() as int),
{
    let ghost before = order@;
    let mut i: usize = 0;
    while i < objects.len()
        invariant
            i <= objects@.len(),
            fov.wf(),
            order@ == before + pass(objects@, fov, blocking, i as int),
        decreases objects@.len() - i,
    {
        let o = &objects[i];
        if o.blocks == blocking && fov.in_bounds(o.x, o.y) && fov.is_in_fov(o.x, o.y) {
            order.push(i);
        }
        i += 1;
    }
}

/// The entities to draw, by index, in the order in which to draw them.
pub fn draw_order(objects: &[Object], fov: &FovMap) -> (order: Vec<usize>)
    requires
        fov.wf(),
    ensures
        order@ == drawing_order(objects@, fov),
{
    let mut order: Vec<usize> = Vec::new();
    draw_pass(objects, fov, false, &mut order);
    draw_pass(objects, fov, true, &mut order);
    order
}

/// The player's current and greatest hit points, for the status bar: both
/// zero for a player without a fighter.
pub fn player_stats(objects: &[Object]) -> (stats: (i32, i32))
    requires
        PLAYER < objects@.len(),
    ensures
        stats == (match objects@[PLAYER as int].fighter {
            Some(f) => (f.hp, f.max_hp),
            None => (0i32, 0i32),
        }),
{
    match objects[PLAYER].fighter {
        Some(f) => (f.hp, f.max_hp),
        None => (0, 0),
    }
}

/// Everything the drawing order names is an entity in sight, and every
/// entity in sight is named exactly once; a blocking entity never comes
/// before one that does not block.
pub proof fn lemma_drawing_order(objects: Seq<Object>, fov: &FovMap)
    requires
        objects.len() <= usize::MAX,
    ensures
        forall|k: int|
            0 <= k < drawing_order(objects, fov).len() ==> {
                let id = #[trigger] drawing_order(objects, fov)[k];
                id < objects.len() && fov.visible(objects[id as int].x as int, objects[id as int].y as int)
            },
        forall|i: int|
            0 <= i < objects.len() && fov.visible(
                (#[trigger] objects[i]).x as int,
                objects[i].y as int,
            ) ==> drawing_order(objects, fov).contains(i as usize),
        forall|j: int, k: int|
            0 <= j < k < drawing_order(objects, fov).len() ==> !(objects[(
            #[trigger] drawing_order(objects, fov)[j]) as int].blocks && !objects[(
            #[trigger] drawing_order(objects, fov)[k]) as int].blocks),
        forall|j: int, k: int|
            0 <= j < k < drawing_order(objects, fov).len() ==> #[trigger] drawing_order(
                objects,
                fov,
            )[j] != #[trigger] drawing_order(objects, fov)[k],
{
    let n = objects.len() as int;
    lemma_pass(objects, fov, false, n);
    lemma_pass(objects, fov, true, n);
    let first = pass(objects, fov, false, n);
    let second = pass(objects, fov, true, n);
    let order = drawing_order(objects, fov);
    assert forall|i: int|
        0 <= i < objects.len() && fov.visible(
            (#[trigger] objects[i]).x as int,
            objects[i].y as int,
        ) implies order.contains(i as usize) by {
        if objects[i].blocks {
            let k = choose|k: int| 0 <= k < second.len() && second[k] == i as usize;
            assert(order[first.len() + k] == i as usize);
        } else {
            let k = choose|k: int| 0 <= k < first.len() && first[k] == i as usize;
            assert(order[k] == i as usize);
        }
    }
}

/// What one pass holds: only entities among the first `n` that it shows, and
/// each of those.
proof fn lemma_pass(objects: Seq<Object>, fov: &FovMap, blocking: bool, n: int)
    requires
        0 <= n <= objects.len() <= usize::MAX,
    ensures
        forall|k: int|
            0 <= k < pass(objects, fov, blocking, n).len() ==> {
                let id = #[trigger] pass(objects, fov, blocking, n)[k];
                id < n && shown(objects[id as int], fov, blocking)
            },
        forall|i: int|
            0 <= i < n && shown(#[trigger] objects[i], fov, blocking) ==> exists|k: int|
                0 <= k < pass(objects, fov, blocking, n).len() && #[trigger] pass(
                    objects,
                    fov,
                    blocking,
                    n,
                )[k] == i as usize,
        forall|j: int, k: int|
            0 <= j < k < pass(objects, fov, blocking, n).len() ==> #[trigger] pass(
                objects,
                fov,
                blocking,
                n,
            )[j] < #[trigger] pass(objects, fov, blocking, n)[k],
    decreases n,
{
    if n > 0 {
        lemma_pass(objects, fov, blocking, n - 1);
        let shorter = pass(objects, fov, blocking, n - 1);
        let longer = pass(objects, fov, blocking, n);
        assert forall|i: int| 0 <= i < n && shown(#[trigger] objects[i], fov, blocking) implies exists|
            k: int,
        |
            0 <= k < longer.len() && #[trigger] longer[k] == i as usize by {
            if i < n - 1 {
                let k = choose|k: int| 0 <= k < shorter.len() && #[trigger] shorter[k] == i as usize;
                assert(longer[k] == i as usize);
            } else {
                assert(longer[longer.len() - 1] == i as usize);
            }
        }
    }
}

} // verus!
