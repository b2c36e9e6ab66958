//! The hit-test index: the screen rectangles of the current frame, queried on
//! pointer clicks.
//!
//! The index is discarded and rebuilt every frame in layout order. A query
//! walks all rectangles and keeps the last one that contains the point, so a
//! later-laid-out span takes precedence over an earlier one under the same
//! pixel. Containment is strict on every edge: a click exactly on a border
//! misses.

use vstd::prelude::*;

verus! {

/// One screen rectangle of the current frame, tagged with the identity
/// (tag, start, stop) of the span it was laid out from.
#[derive(Clone, Copy, Debug)]
pub struct Area {
    pub y_start: u64,
    pub x_start: i32,
    pub y_stop: u64,
    pub x_stop: i32,
    pub tag_data: (u64, u64, u64),
}

/// Whether the point lies strictly inside the rectangle: every edge is
/// excluded.
pub open spec fn hit(a: Area, px: int, py: int) -> bool {
    (a.x_start as int) < px && px < (a.x_stop as int) && (a.y_start as int) < py && py < (
    a.y_stop as int)
}

/// The tag data of the last rectangle of `s` that contains the point.
pub open spec fn last_hit(s: Seq<Area>, px: int, py: int) -> Option<(u64, u64, u64)>
    decreases s.len(),
{
    if s.len() == 0 {
        None
    } else if hit(s.last(), px, py) {
        Some(s.last().tag_data)
    } else {
        last_hit(s.drop_last(), px, py)
    }
}

/// The per-frame hit-test index, in layout order.
pub struct HitIndex {
    pub areas: Vec<Area>,
}

impl HitIndex {
    /// An empty index.
    pub fn new() -> (h: HitIndex)
        ensures
            h.areas@ =~= Seq::<Area>::empty(),
    {
        HitIndex { areas: Vec::new() }
    }

    /// Discards every rectangle, ready for the next frame's layout.
    pub fn clear(&mut self)
        ensures
            final(self).areas@ =~= Seq::<Area>::empty(),
    {
        self.areas.clear();
    }

    /// Appends the rectangle of the span laid out next.
    pub fn push(&mut self, a: Area)
        ensures
            final(self).areas@ == old(self).areas@.push(a),
    {
        self.areas.push(a);
    }

    /// The tag data of the last rectangle containing the pixel `(px, py)`,
    /// or `None` when the click hits no rectangle strictly inside.
    pub fn query(&self, px: i32, py: i32) -> (r: Option<(u64, u64, u64)>)
        ensures
            r == last_hit(self.areas@, px as int, py as int),
    {
        let ghost s = self.areas@;
        let mut found: Option<(u64, u64, u64)> = None;
        let mut i: usize = 0;
        while i < self.areas.len()
            invariant
                0 <= i <= self.areas@.len(),
                self.areas@ == s,
                found == last_hit(s.take(i as int), px as int, py as int),
            decreases self.areas@.len() - i,
        {
            let a = self.areas[i];
            proof {
                let t = s.take(i + 1);
                assert(t.last() == s[i as int]);
                assert(t.drop_last() =~= s.take(i as int));
            }
            if a.x_start < px && px < a.x_stop && py >= 0 && a.y_start < (py as u64) && (py as u64)
                < a.y_stop {
                found = Some(a.tag_data);
            } else {
                proof {
                    assert(!hit(s[i as int], px as int, py as int));
                }
            }
            i = i + 1;
        }
        proof {
            assert(s.take(s.len() as int) =~= s);
        }
        found
    }
}

/// A point exactly on any edge of a rectangle is not inside it.
pub proof fn lemma_edge_misses(a: Area, px: int, py: int)
    ensures
        px == a.x_start as int ==> !hit(a, px, py),
        px == a.x_stop as int ==> !hit(a, px, py),
        py == a.y_start as int ==> !hit(a, px, py),
        py == a.y_stop as int ==> !hit(a, px, py),
{
}

/// When two rectangles both contain the point and nothing after the later
/// one does, a query returns the later rectangle's data: later-laid-out
/// spans take precedence.
pub proof fn lemma_later_overlap_wins(s: Seq<Area>, i: int, j: int, px: int, py: int)
    requires
        0 <= i < j < s.len(),
        hit(s[i], px, py),
        hit(s[j], px, py),
        forall|k: int| j < k < s.len() ==> !hit(#[trigger] s[k], px, py),
    ensures
        last_hit(s, px, py) == Some(s[j].tag_data),
    decreases s.len(),
{
    if j == s.len() - 1 {
        assert(hit(s.last(), px, py));
    } else {
        assert(!hit(s.last(), px, py));
        let t = s.drop_last();
        assert(t[i] == s[i] && t[j] == s[j]);
        lemma_later_overlap_wins(t, i, j, px, py);
    }
}

/// A query that returns data returns the data of the last rectangle that
/// contains the point; a query that returns nothing was contained nowhere.
pub proof fn lemma_last_hit_is_latest(s: Seq<Area>, px: int, py: int)
    ensures
        match last_hit(s, px, py) {
            Some(d) => exists|k: int|
                0 <= k < s.len() && hit(#[trigger] s[k], px, py) && d == s[k].tag_data && (
                forall|m: int| k < m < s.len() ==> !hit(#[trigger] s[m], px, py)),
            None => forall|k: int| 0 <= k < s.len() ==> !hit(#[trigger] s[k], px, py),
        },
    decreases s.len(),
{
    if s.len() == 0 {
    } else if hit(s.last(), px, py) {
        let k = s.len() - 1;
        assert(hit(s[k], px, py) && last_hit(s, px, py) == Some(s[k].tag_data));
    } else {
        lemma_last_hit_is_latest(s.drop_last(), px, py);
        let t = s.drop_last();
        match last_hit(t, px, py) {
            Some(d) => {
                let k = choose|k: int|
                    0 <= k < t.len() && hit(#[trigger] t[k], px, py) && d == t[k].tag_data && (
                    forall|m: int| k < m < t.len() ==> !hit(#[trigger] t[m], px, py));
                assert(hit(s[k], px, py));
                assert forall|m: int| k < m < s.len() implies !hit(#[trigger] s[m], px, py) by {
                    if m < s.len() - 1 {
                        assert(s[m] == t[m]);
                    }
                }
            },
            None => {
                assert forall|k: int| 0 <= k < s.len() implies !hit(#[trigger] s[k], px, py) by {
                    if k < s.len() - 1 {
                        assert(s[k] == t[k]);
                    }
                }
            },
        }
    }
}

} // verus!
