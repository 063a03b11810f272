//! The spatial index used for hit-testing.
//!
//! A two-level ordered structure: buckets sorted by x coordinate, each
//! holding cells sorted by y coordinate, each cell carrying the series and
//! item that sit at that exact data-space point. A window query restricts
//! the outer level to an x interval and each matching bucket to a y
//! interval, so resolving a hover costs far less than a scan of every
//! point. Exactly one payload is stored per (x, y) pair: inserting at an
//! occupied pair overwrites the earlier payload.

use vstd::prelude::*;
use crate::frac::{Frac, MAX_COORD, MAX_CMP_DEN, lemma_cmp_int_monotone};

verus! {

/// One hit-testable point of a series: the item's index within the series
/// and its data-space location.
#[derive(Clone, Copy, Debug)]
pub struct Entry {
    pub id: usize,
    pub x: i64,
    pub y: i64,
}

impl Entry {
    pub fn new(id: usize, x: i64, y: i64) -> (r: Entry)
        ensures
            r == (Entry { id, x, y }),
    {
        Entry { id, x, y }
    }
}

/// One stored payload: the cell's y coordinate and the series and item
/// that sit there.
#[derive(Clone, Copy, Debug)]
pub struct Cell {
    pub y: i64,
    pub sid: u64,
    pub item: usize,
}

/// All payloads sharing one x coordinate, sorted by y.
#[derive(Clone, Debug)]
pub struct Bucket {
    pub x: i64,
    pub cells: Vec<Cell>,
}

impl Bucket {
    /// Non-empty, strictly sorted by y, with bounded coordinates.
    pub open spec fn wf(self) -> bool {
        &&& self.cells@.len() > 0
        &&& -MAX_COORD <= self.x <= MAX_COORD
        &&& forall|i: int, j: int|
            0 <= i < j < self.cells@.len() ==> self.cells@[i].y < self.cells@[j].y
        &&& forall|i: int|
            0 <= i < self.cells@.len() ==> -MAX_COORD <= (#[trigger] self.cells@[i]).y
                <= MAX_COORD
    }

    /// The bucket holds `(s, it)` at height `y`.
    pub open spec fn has(self, y: i64, s: u64, it: usize) -> bool {
        exists|j: int|
            0 <= j < self.cells@.len() && self.cells@[j] == (Cell { y, sid: s, item: it })
    }
}

/// The half-open data-space query window `[x0, x1) x [y0, y1)`, with
/// fractional edges as the event pipeline produces them.
#[derive(Clone, Copy, Debug)]
pub struct QueryRect {
    pub x0: Frac,
    pub x1: Frac,
    pub y0: Frac,
    pub y1: Frac,
}

impl QueryRect {
    pub open spec fn wf(self) -> bool {
        &&& self.x0.wf() && self.x1.wf() && self.y0.wf() && self.y1.wf()
        &&& self.x0.den <= MAX_CMP_DEN && self.x1.den <= MAX_CMP_DEN
        &&& self.y0.den <= MAX_CMP_DEN && self.y1.den <= MAX_CMP_DEN
    }

    /// The x interval contains the coordinate `x`.
    pub open spec fn x_in(self, x: i64) -> bool {
        self.x0.le_int(x as int) && self.x1.gt_int(x as int)
    }

    /// The y interval contains the coordinate `y`.
    pub open spec fn y_in(self, y: i64) -> bool {
        self.y0.le_int(y as int) && self.y1.gt_int(y as int)
    }

    /// The window contains the point `(x, y)`.
    pub open spec fn covers(self, x: i64, y: i64) -> bool {
        self.x_in(x) && self.y_in(y)
    }
}

/// The latest entry of `entries` located at `(x, y)`, if any: the one
/// whose insertion overwrites all the earlier ones there.
pub open spec fn find_last(entries: Seq<Entry>, x: i64, y: i64) -> Option<Entry>
    decreases entries.len(),
{
    if entries.len() == 0 {
        None
    } else if entries.last().x == x && entries.last().y == y {
        Some(entries.last())
    } else {
        find_last(entries.drop_last(), x, y)
    }
}

/// The spatial index: a mapping from x to a mapping from y to the series
/// and item stored at that exact point.
#[derive(Clone, Debug)]
pub struct Items {
    pub buckets: Vec<Bucket>,
}

impl Items {
    /// Buckets strictly sorted by x, each bucket well formed.
    pub open spec fn wf(self) -> bool {
        &&& forall|i: int, j: int|
            0 <= i < j < self.buckets@.len() ==> self.buckets@[i].x < self.buckets@[j].x
        &&& forall|i: int| 0 <= i < self.buckets@.len() ==> (#[trigger] self.buckets@[i]).wf()
    }

    /// The index holds `(s, it)` at the point `(x, y)`.
    pub open spec fn has_item(self, x: i64, y: i64, s: u64, it: usize) -> bool {
        exists|i: int|
            0 <= i < self.buckets@.len() && (#[trigger] self.buckets@[i]).x == x
                && self.buckets@[i].has(y, s, it)
    }

    /// An empty index.
    pub fn new() -> (r: Items)
        ensures
            r.wf(),
            forall|x: i64, y: i64, s: u64, it: usize| !r.has_item(x, y, s, it),
    {
        Items { buckets: Vec::new() }
    }

    /// Stores `(sid, item)` at `(x, y)`, overwriting whatever payload an
    /// earlier insertion left at exactly that point.
    fn insert_entry(&mut self, sid: u64, x: i64, y: i64, item: usize)
        requires
            old(self).wf(),
            -MAX_COORD <= x <= MAX_COORD,
            -MAX_COORD <= y <= MAX_COORD,
        ensures
            final(self).wf(),
            forall|a: i64, b: i64, s: u64, it: usize|
                final(self).has_item(a, b, s, it) <==> (if a == x && b == y {
                    s == sid && it == item
                } else {
                    old(self).has_item(a, b, s, it)
                }),
    {
        let ghost prev = *self;
        let n = self.buckets.len();
        let mut p: usize = 0;
        while p < n && self.buckets[p].x < x
            invariant
                *self == prev,
                n == self.buckets@.len(),
                p <= n,
                forall|k: int| 0 <= k < p ==> (#[trigger] self.buckets@[k]).x < x,
            decreases n - p,
        {
            p = p + 1;
        }
        if p < n && self.buckets[p].x == x {
            self.overwrite_in_bucket(p, sid, y, item);
            proof {
                self.lemma_bucket_update(prev, p as int, x, y, sid, item);
            }
        } else {
            let cell = Cell { y, sid, item };
            let mut cells: Vec<Cell> = Vec::new();
            cells.push(cell);
            let bucket = Bucket { x, cells };
            let ghost nb = bucket;
            self.buckets.insert(p, bucket);
            proof {
                self.lemma_bucket_insert(prev, p as int, nb, x, y, sid, item);
            }
        }
    }

    /// Within the bucket at index `p`, stores `(sid, item)` at height `y`,
    /// overwriting an existing cell at exactly that height.
    fn overwrite_in_bucket(&mut self, p: usize, sid: u64, y: i64, item: usize)
        requires
            old(self).wf(),
            p < old(self).buckets@.len(),
            -MAX_COORD <= y <= MAX_COORD,
        ensures
            final(self).buckets@[p as int].wf(),
            final(self).buckets@.len() == old(self).buckets@.len(),
            forall|k: int|
                0 <= k < final(self).buckets@.len() && k != p ==> final(self).buckets@[k] == old(
                    self,
                ).buckets@[k],
            final(self).buckets@[p as int].x == old(self).buckets@[p as int].x,
            forall|b: i64, s: u64, it: usize|
                final(self).buckets@[p as int].has(b, s, it) <==> (if b == y {
                    s == sid && it == item
                } else {
                    old(self).buckets@[p as int].has(b, s, it)
                }),
    {
        let ghost prevb = self.buckets@[p as int];
        let m = self.buckets[p].cells.len();
        let mut q: usize = 0;
        while q < m && self.buckets[p].cells[q].y < y
            invariant
                *self == *old(self),
                p < self.buckets@.len(),
                m == self.buckets@[p as int].cells@.len(),
                q <= m,
                forall|k: int| 0 <= k < q ==> (#[trigger] self.buckets@[p as int].cells@[k]).y < y,
            decreases m - q,
        {
            q = q + 1;
        }
        let cell = Cell { y, sid, item };
        if q < m && self.buckets[p].cells[q].y == y {
            self.buckets[p].cells[q] = cell;
            proof {
                let newb = self.buckets@[p as int];
                assert(newb.cells@ =~= prevb.cells@.update(q as int, cell));
                assert forall|k: int|
                    0 <= k < newb.cells@.len() implies (#[trigger] newb.cells@[k]).y
                        == prevb.cells@[k].y by {}
                assert forall|i: int, j: int|
                    0 <= i < j < newb.cells@.len() implies newb.cells@[i].y < newb.cells@[j].y by {
                    assert(prevb.cells@[i].y < prevb.cells@[j].y);
                }
                assert(newb.wf());
                assert forall|b: i64, s: u64, it: usize| newb.has(b, s, it) implies (if b == y {
                    s == sid && it == item
                } else {
                    prevb.has(b, s, it)
                }) by {
                    let j = choose|j: int|
                        0 <= j < newb.cells@.len() && newb.cells@[j] == (Cell {
                            y: b,
                            sid: s,
                            item: it,
                        });
                    if j != q {
                        assert(prevb.cells@[j] == newb.cells@[j]);
                    }
                }
                assert forall|b: i64, s: u64, it: usize|
                    (if b == y {
                        s == sid && it == item
                    } else {
                        prevb.has(b, s, it)
                    }) implies newb.has(b, s, it) by {
                    if b == y && s == sid && it == item {
                        assert(newb.cells@[q as int] == (Cell { y: b, sid: s, item: it }));
                    } else if b != y {
                        let j = choose|j: int|
                            0 <= j < prevb.cells@.len() && prevb.cells@[j] == (Cell {
                                y: b,
                                sid: s,
                                item: it,
                            });
                        assert(newb.cells@[j] == (Cell { y: b, sid: s, item: it }));
                    }
                }
            }
        } else {
            self.buckets[p].cells.insert(q, cell);
            proof {
                let newb = self.buckets@[p as int];
                assert(newb.cells@ == prevb.cells@.insert(q as int, cell));
                assert forall|i: int, j: int|
                    0 <= i < j < newb.cells@.len() implies newb.cells@[i].y < newb.cells@[j].y by {
                    let iold: int = if i < q { i } else { i - 1 };
                    let jold: int = if j < q { j } else { j - 1 };
                    if i == q {
                        assert(newb.cells@[j] == prevb.cells@[jold]);
                        assert(!(prevb.cells@[jold].y < y));
                        assert(prevb.cells@[jold].y != y);
                    } else if j == q {
                        assert(newb.cells@[i] == prevb.cells@[iold]);
                    } else {
                        assert(newb.cells@[i] == prevb.cells@[iold]);
                        assert(newb.cells@[j] == prevb.cells@[jold]);
                        if iold < q <= jold && !(iold < jold) {
                            assert(false);
                        }
                    }
                }
                assert forall|k: int|
                    0 <= k < newb.cells@.len() implies -MAX_COORD <= (
                #[trigger] newb.cells@[k]).y <= MAX_COORD by {
                    if k < q {
                        assert(newb.cells@[k] == prevb.cells@[k]);
                    } else if k > q {
                        assert(newb.cells@[k] == prevb.cells@[k - 1]);
                    }
                }
                assert(newb.wf());
                assert forall|b: i64, s: u64, it: usize| newb.has(b, s, it) implies (if b == y {
                    s == sid && it == item
                } else {
                    prevb.has(b, s, it)
                }) by {
                    let j = choose|j: int|
                        0 <= j < newb.cells@.len() && newb.cells@[j] == (Cell {
                            y: b,
                            sid: s,
                            item: it,
                        });
                    if j < q {
                        assert(prevb.cells@[j] == newb.cells@[j]);
                    } else if j > q {
                        assert(prevb.cells@[j - 1] == newb.cells@[j]);
                    }
                }
                assert forall|b: i64, s: u64, it: usize|
                    (if b == y {
                        s == sid && it == item
                    } else {
                        prevb.has(b, s, it)
                    }) implies newb.has(b, s, it) by {
                    if b == y && s == sid && it == item {
                        assert(newb.cells@[q as int] == (Cell { y: b, sid: s, item: it }));
                    } else if b != y {
                        let j = choose|j: int|
                            0 <= j < prevb.cells@.len() && prevb.cells@[j] == (Cell {
                                y: b,
                                sid: s,
                                item: it,
                            });
                        if j < q {
                            assert(newb.cells@[j] == (Cell { y: b, sid: s, item: it }));
                        } else {
                            assert(newb.cells@[j + 1] == (Cell { y: b, sid: s, item: it }));
                        }
                    }
                }
            }
        }
    }

    /// After an in-place update of bucket `p`, the whole index holds the
    /// pointwise-updated contents.
    proof fn lemma_bucket_update(self, prev: Items, p: int, x: i64, y: i64, sid: u64, item: usize)
        requires
            prev.wf(),
            0 <= p < prev.buckets@.len(),
            prev.buckets@[p].x == x,
            self.buckets@.len() == prev.buckets@.len(),
            forall|k: int|
                0 <= k < self.buckets@.len() && k != p ==> self.buckets@[k] == prev.buckets@[k],
            self.buckets@[p].x == x,
            self.buckets@[p].wf(),
            forall|b: i64, s: u64, it: usize|
                self.buckets@[p].has(b, s, it) <==> (if b == y {
                    s == sid && it == item
                } else {
                    prev.buckets@[p].has(b, s, it)
                }),
        ensures
            self.wf(),
            forall|a: i64, b: i64, s: u64, it: usize|
                self.has_item(a, b, s, it) <==> (if a == x && b == y {
                    s == sid && it == item
                } else {
                    prev.has_item(a, b, s, it)
                }),
    {
        assert forall|i: int, j: int|
            0 <= i < j < self.buckets@.len() implies self.buckets@[i].x < self.buckets@[j].x by {
            assert(prev.buckets@[i].x < prev.buckets@[j].x);
        }
        assert forall|a: i64, b: i64, s: u64, it: usize|
            self.has_item(a, b, s, it) implies (if a == x && b == y {
            s == sid && it == item
        } else {
            prev.has_item(a, b, s, it)
        }) by {
            let i = choose|i: int|
                0 <= i < self.buckets@.len() && (#[trigger] self.buckets@[i]).x == a
                    && self.buckets@[i].has(b, s, it);
            if i == p {
                if !(a == x && b == y) {
                    assert(prev.buckets@[p].has(b, s, it) && prev.buckets@[p].x == a);
                }
            } else {
                assert(prev.buckets@[i].x == a && prev.buckets@[i].has(b, s, it));
                if a == x && b == y {
                    if i < p {
                        assert(prev.buckets@[i].x < prev.buckets@[p].x);
                    } else {
                        assert(prev.buckets@[p].x < prev.buckets@[i].x);
                    }
                }
            }
        }
        assert forall|a: i64, b: i64, s: u64, it: usize|
            (if a == x && b == y {
                s == sid && it == item
            } else {
                prev.has_item(a, b, s, it)
            }) implies self.has_item(a, b, s, it) by {
            if a == x && b == y && s == sid && it == item {
                assert(self.buckets@[p].x == a && self.buckets@[p].has(b, s, it));
            } else if prev.has_item(a, b, s, it) {
                let i = choose|i: int|
                    0 <= i < prev.buckets@.len() && (#[trigger] prev.buckets@[i]).x == a
                        && prev.buckets@[i].has(b, s, it);
                if i == p {
                    if !(a == x && b == y) {
                        assert(self.buckets@[p].x == a && self.buckets@[p].has(b, s, it));
                    }
                } else {
                    assert(self.buckets@[i].x == a && self.buckets@[i].has(b, s, it));
                }
            }
        }
    }

    /// After inserting a fresh one-cell bucket at position `p`, the index
    /// holds the pointwise-updated contents.
    proof fn lemma_bucket_insert(
        self,
        prev: Items,
        p: int,
        nb: Bucket,
        x: i64,
        y: i64,
        sid: u64,
        item: usize,
    )
        requires
            prev.wf(),
            0 <= p <= prev.buckets@.len(),
            forall|k: int| 0 <= k < p ==> (#[trigger] prev.buckets@[k]).x < x,
            p < prev.buckets@.len() ==> prev.buckets@[p].x > x,
            -MAX_COORD <= x <= MAX_COORD,
            -MAX_COORD <= y <= MAX_COORD,
            nb.x == x,
            nb.cells@ == seq_one(Cell { y, sid, item }),
            self.buckets@ == prev.buckets@.insert(p, nb),
        ensures
            self.wf(),
            forall|a: i64, b: i64, s: u64, it: usize|
                self.has_item(a, b, s, it) <==> (if a == x && b == y {
                    s == sid && it == item
                } else {
                    prev.has_item(a, b, s, it)
                }),
    {
        assert(nb.wf());
        assert forall|i: int, j: int|
            0 <= i < j < self.buckets@.len() implies self.buckets@[i].x < self.buckets@[j].x by {
            let iold: int = if i < p { i } else { i - 1 };
            let jold: int = if j < p { j } else { j - 1 };
            if i == p {
                assert(self.buckets@[j] == prev.buckets@[jold]);
            } else if j == p {
                assert(self.buckets@[i] == prev.buckets@[iold]);
            } else {
                assert(self.buckets@[i] == prev.buckets@[iold]);
                assert(self.buckets@[j] == prev.buckets@[jold]);
            }
        }
        assert forall|i: int| 0 <= i < self.buckets@.len() implies (#[trigger] self.buckets@[i]).wf() by {
            if i < p {
                assert(self.buckets@[i] == prev.buckets@[i]);
            } else if i > p {
                assert(self.buckets@[i] == prev.buckets@[i - 1]);
            }
        }
        assert forall|a: i64, b: i64, s: u64, it: usize|
            self.has_item(a, b, s, it) implies (if a == x && b == y {
            s == sid && it == item
        } else {
            prev.has_item(a, b, s, it)
        }) by {
            let i = choose|i: int|
                0 <= i < self.buckets@.len() && (#[trigger] self.buckets@[i]).x == a
                    && self.buckets@[i].has(b, s, it);
            if i == p {
                let j = choose|j: int|
                    0 <= j < nb.cells@.len() && nb.cells@[j] == (Cell { y: b, sid: s, item: it });
                assert(nb.cells@[j] == (Cell { y, sid, item }));
            } else {
                let iold: int = if i < p {
                    i
                } else {
                    i - 1
                };
                assert(self.buckets@[i] == prev.buckets@[iold]);
                assert(prev.buckets@[iold].x == a && prev.buckets@[iold].has(b, s, it));
                if a == x {
                    if iold < p {
                        assert(prev.buckets@[iold].x < x);
                    } else {
                        assert(prev.buckets@[p].x > x);
                        if iold > p {
                            assert(prev.buckets@[p].x < prev.buckets@[iold].x);
                        }
                    }
                }
            }
        }
        assert forall|a: i64, b: i64, s: u64, it: usize|
            (if a == x && b == y {
                s == sid && it == item
            } else {
                prev.has_item(a, b, s, it)
            }) implies self.has_item(a, b, s, it) by {
            if a == x && b == y && s == sid && it == item {
                assert(self.buckets@[p] == nb);
                assert(nb.cells@[0] == (Cell { y: b, sid: s, item: it }));
                assert(self.buckets@[p].has(b, s, it));
            } else if prev.has_item(a, b, s, it) {
                let i = choose|i: int|
                    0 <= i < prev.buckets@.len() && (#[trigger] prev.buckets@[i]).x == a
                        && prev.buckets@[i].has(b, s, it);
                let inew: int = if i < p {
                    i
                } else {
                    i + 1
                };
                assert(self.buckets@[inew] == prev.buckets@[i]);
                assert(self.buckets@[inew].x == a && self.buckets@[inew].has(b, s, it));
            }
        }
    }
}

/// A one-element sequence.
pub open spec fn seq_one(c: Cell) -> Seq<Cell> {
    Seq::empty().push(c)
}

/// The payloads of `cells` whose y coordinate lies in the window's y
/// interval, in cell order.
pub open spec fn cell_hits(cells: Seq<Cell>, rect: QueryRect) -> Seq<(u64, usize)>
    decreases cells.len(),
{
    if cells.len() == 0 {
        Seq::empty()
    } else {
        let rest = cell_hits(cells.drop_last(), rect);
        let c = cells.last();
        if rect.y_in(c.y) {
            rest.push((c.sid, c.item))
        } else {
            rest
        }
    }
}

/// The payloads of all cells whose (x, y) point lies in the window, in
/// x-major then y order: the concatenation of the per-bucket hits over
/// the buckets whose x lies in the x interval.
pub open spec fn bucket_hits(bs: Seq<Bucket>, rect: QueryRect) -> Seq<(u64, usize)>
    decreases bs.len(),
{
    if bs.len() == 0 {
        Seq::empty()
    } else {
        let rest = bucket_hits(bs.drop_last(), rect);
        let b = bs.last();
        if rect.x_in(b.x) {
            rest + cell_hits(b.cells@, rect)
        } else {
            rest
        }
    }
}

/// Extending the scanned prefix by one cell appends that cell's payload
/// exactly when its y coordinate lies in the window.
proof fn lemma_cell_hits_step(cells: Seq<Cell>, rect: QueryRect, k: int)
    requires
        0 <= k < cells.len(),
    ensures
        rect.y_in(cells[k].y) ==> cell_hits(cells.take(k + 1), rect) == cell_hits(
            cells.take(k),
            rect,
        ).push((cells[k].sid, cells[k].item)),
        !rect.y_in(cells[k].y) ==> cell_hits(cells.take(k + 1), rect) == cell_hits(
            cells.take(k),
            rect,
        ),
{
    assert(cells.take(k + 1).drop_last() =~= cells.take(k));
    assert(cells.take(k + 1).last() == cells[k]);
}

/// Extending the scanned prefix by one bucket appends that bucket's hits
/// exactly when its x coordinate lies in the window.
proof fn lemma_bucket_hits_step(bs: Seq<Bucket>, rect: QueryRect, k: int)
    requires
        0 <= k < bs.len(),
    ensures
        rect.x_in(bs[k].x) ==> bucket_hits(bs.take(k + 1), rect) == bucket_hits(bs.take(k), rect)
            + cell_hits(bs[k].cells@, rect),
        !rect.x_in(bs[k].x) ==> bucket_hits(bs.take(k + 1), rect) == bucket_hits(bs.take(k), rect),
{
    assert(bs.take(k + 1).drop_last() =~= bs.take(k));
    assert(bs.take(k + 1).last() == bs[k]);
}

/// The bucket holds `(s, it)` at some height inside the window's y
/// interval.
pub open spec fn bucket_member(bk: Bucket, rect: QueryRect, s: u64, it: usize) -> bool {
    exists|j: int|
        0 <= j < bk.cells@.len() && rect.y_in((#[trigger] bk.cells@[j]).y) && bk.cells@[j].sid == s
            && bk.cells@[j].item == it
}

/// A payload appears among a bucket's hits exactly when some cell in the
/// window's y interval carries it.
proof fn lemma_cell_hits_member(cells: Seq<Cell>, rect: QueryRect, s: u64, it: usize)
    ensures
        cell_hits(cells, rect).contains((s, it)) <==> exists|j: int|
            0 <= j < cells.len() && rect.y_in((#[trigger] cells[j]).y) && cells[j].sid == s
                && cells[j].item == it,
    decreases cells.len(),
{
    if cells.len() > 0 {
        lemma_cell_hits_member(cells.drop_last(), rect, s, it);
        let rest = cell_hits(cells.drop_last(), rect);
        let c = cells.last();
        if cell_hits(cells, rect).contains((s, it)) {
            let w = choose|w: int|
                0 <= w < cell_hits(cells, rect).len() && cell_hits(cells, rect)[w] == (s, it);
            if rect.y_in(c.y) && w == rest.len() {
                assert(c.sid == s && c.item == it);
                assert(rect.y_in(cells[cells.len() - 1].y));
            } else {
                assert(rest[w] == (s, it));
                assert(rest.contains((s, it)));
                let j = choose|j: int|
                    0 <= j < cells.drop_last().len() && rect.y_in(
                        (#[trigger] cells.drop_last()[j]).y,
                    ) && cells.drop_last()[j].sid == s && cells.drop_last()[j].item == it;
                assert(cells[j] == cells.drop_last()[j]);
            }
        }
        if exists|j: int|
            0 <= j < cells.len() && rect.y_in((#[trigger] cells[j]).y) && cells[j].sid == s
                && cells[j].item == it {
            let j = choose|j: int|
                0 <= j < cells.len() && rect.y_in((#[trigger] cells[j]).y) && cells[j].sid == s
                    && cells[j].item == it;
            if j == cells.len() - 1 {
                assert(cell_hits(cells, rect)[rest.len() as int] == (s, it));
            } else {
                assert(cells.drop_last()[j] == cells[j]);
                assert(rest.contains((s, it)));
                let w = choose|w: int| 0 <= w < rest.len() && rest[w] == (s, it);
                assert(cell_hits(cells, rect)[w] == (s, it));
            }
        }
    }
}

/// A payload appears among the window's hits exactly when some bucket in
/// the x interval holds it at a height in the y interval.
proof fn lemma_bucket_hits_member(bs: Seq<Bucket>, rect: QueryRect, s: u64, it: usize)
    ensures
        bucket_hits(bs, rect).contains((s, it)) <==> exists|i: int|
            0 <= i < bs.len() && rect.x_in((#[trigger] bs[i]).x) && bucket_member(bs[i], rect, s, it),
    decreases bs.len(),
{
    if bs.len() > 0 {
        lemma_bucket_hits_member(bs.drop_last(), rect, s, it);
        lemma_cell_hits_member(bs.last().cells@, rect, s, it);
        let rest = bucket_hits(bs.drop_last(), rect);
        let b = bs.last();
        if bucket_hits(bs, rect).contains((s, it)) {
            let w = choose|w: int|
                0 <= w < bucket_hits(bs, rect).len() && bucket_hits(bs, rect)[w] == (s, it);
            if rect.x_in(b.x) && w >= rest.len() {
                assert(cell_hits(b.cells@, rect)[w - rest.len()] == (s, it));
                assert(cell_hits(b.cells@, rect).contains((s, it)));
                assert(bucket_member(bs[bs.len() - 1], rect, s, it));
            } else {
                assert(rest[w] == (s, it));
                assert(rest.contains((s, it)));
                let i = choose|i: int|
                    0 <= i < bs.drop_last().len() && rect.x_in((#[trigger] bs.drop_last()[i]).x)
                        && bucket_member(bs.drop_last()[i], rect, s, it);
                assert(bs[i] == bs.drop_last()[i]);
            }
        }
        if exists|i: int|
            0 <= i < bs.len() && rect.x_in((#[trigger] bs[i]).x) && bucket_member(
                bs[i],
                rect,
                s,
                it,
            ) {
            let i = choose|i: int|
                0 <= i < bs.len() && rect.x_in((#[trigger] bs[i]).x) && bucket_member(
                    bs[i],
                    rect,
                    s,
                    it,
                );
            if i == bs.len() - 1 {
                assert(cell_hits(b.cells@, rect).contains((s, it)));
                let w = choose|w: int|
                    0 <= w < cell_hits(b.cells@, rect).len() && cell_hits(b.cells@, rect)[w] == (
                    s,
                    it,
                    );
                assert(bucket_hits(bs, rect)[rest.len() + w] == (s, it));
            } else {
                assert(bs.drop_last()[i] == bs[i]);
                assert(rest.contains((s, it)));
                let w = choose|w: int| 0 <= w < rest.len() && rest[w] == (s, it);
                if rect.x_in(b.x) {
                    assert(bucket_hits(bs, rect)[w] == (s, it));
                } else {
                    assert(bucket_hits(bs, rect)[w] == (s, it));
                }
            }
        }
    }
}

/// What a window query returns is exactly what the index stores inside
/// the window: a payload is among the hits precisely when some point of
/// the window holds it.
pub proof fn lemma_collision_exact(idx: Items, rect: QueryRect, s: u64, it: usize)
    requires
        idx.wf(),
    ensures
        bucket_hits(idx.buckets@, rect).contains((s, it)) <==> exists|x: i64, y: i64|
            #[trigger] idx.has_item(x, y, s, it) && rect.covers(x, y),
{
    lemma_bucket_hits_member(idx.buckets@, rect, s, it);
    if bucket_hits(idx.buckets@, rect).contains((s, it)) {
        let i = choose|i: int|
            0 <= i < idx.buckets@.len() && rect.x_in((#[trigger] idx.buckets@[i]).x)
                && bucket_member(idx.buckets@[i], rect, s, it);
        let bk = idx.buckets@[i];
        let j = choose|j: int|
            0 <= j < bk.cells@.len() && rect.y_in((#[trigger] bk.cells@[j]).y) && bk.cells@[j].sid
                == s && bk.cells@[j].item == it;
        let x = bk.x;
        let y = bk.cells@[j].y;
        assert(bk.cells@[j] == (Cell { y, sid: s, item: it }));
        assert(bk.has(y, s, it));
        assert(idx.has_item(x, y, s, it) && rect.covers(x, y));
    }
    if exists|x: i64, y: i64| #[trigger] idx.has_item(x, y, s, it) && rect.covers(x, y) {
        let (x, y) = choose|x: i64, y: i64| #[trigger] idx.has_item(x, y, s, it) && rect.covers(x, y);
        let i = choose|i: int|
            0 <= i < idx.buckets@.len() && (#[trigger] idx.buckets@[i]).x == x
                && idx.buckets@[i].has(y, s, it);
        let bk = idx.buckets@[i];
        let j = choose|j: int|
            0 <= j < bk.cells@.len() && bk.cells@[j] == (Cell { y, sid: s, item: it });
        assert(rect.y_in(bk.cells@[j].y));
        assert(bucket_member(bk, rect, s, it));
        assert(rect.x_in(bk.x));
    }
}

/// A prefix of buckets that all miss the x interval contributes nothing.
proof fn lemma_bucket_hits_empty_prefix(bs: Seq<Bucket>, rect: QueryRect, m: int)
    requires
        0 <= m <= bs.len(),
        forall|k: int| 0 <= k < m ==> !rect.x_in((#[trigger] bs[k]).x),
    ensures
        bucket_hits(bs.take(m), rect) == Seq::<(u64, usize)>::empty(),
    decreases m,
{
    if m > 0 {
        lemma_bucket_hits_empty_prefix(bs, rect, m - 1);
        lemma_bucket_hits_step(bs, rect, m - 1);
    } else {
        assert(bs.take(0) =~= Seq::<Bucket>::empty());
    }
}

/// Buckets past the scanned prefix that all miss the x interval add
/// nothing: the hits of the whole sequence are the hits of the prefix.
proof fn lemma_bucket_hits_tail(bs: Seq<Bucket>, rect: QueryRect, m: int)
    requires
        0 <= m <= bs.len(),
        forall|k: int| m <= k < bs.len() ==> !rect.x_in((#[trigger] bs[k]).x),
    ensures
        bucket_hits(bs, rect) == bucket_hits(bs.take(m), rect),
    decreases bs.len() - m,
{
    if m < bs.len() {
        lemma_bucket_hits_tail(bs, rect, m + 1);
        lemma_bucket_hits_step(bs, rect, m);
        assert(bs.take(bs.len() as int) =~= bs);
    } else {
        assert(bs.take(bs.len() as int) =~= bs);
    }
}

impl Items {
    /// Inserts one entry of `series` per data point: for each entry,
    /// `(x -> (y -> (series_id, item_id)))`. An entry at an exactly
    /// occupied point overwrites the earlier payload, later entries of
    /// this call included.
    pub fn add_series(&mut self, id: u64, series: &Vec<Entry>)
        requires
            old(self).wf(),
            forall|k: int|
                0 <= k < series@.len() ==> -MAX_COORD <= (#[trigger] series@[k]).x <= MAX_COORD
                    && -MAX_COORD <= series@[k].y <= MAX_COORD,
        ensures
            final(self).wf(),
            forall|a: i64, b: i64, s: u64, it: usize|
                final(self).has_item(a, b, s, it) <==> (match find_last(series@, a, b) {
                    Some(e) => s == id && it == e.id,
                    None => old(self).has_item(a, b, s, it),
                }),
    {
        let ghost orig = *self;
        let n = series.len();
        let mut k: usize = 0;
        proof {
            assert(series@.take(0) =~= Seq::<Entry>::empty());
        }
        while k < n
            invariant
                self.wf(),
                n == series@.len(),
                k <= n,
                forall|kk: int|
                    0 <= kk < series@.len() ==> -MAX_COORD <= (#[trigger] series@[kk]).x
                        <= MAX_COORD && -MAX_COORD <= series@[kk].y <= MAX_COORD,
                forall|a: i64, b: i64, s: u64, it: usize|
                    self.has_item(a, b, s, it) <==> (match find_last(
                        series@.take(k as int),
                        a,
                        b,
                    ) {
                        Some(e) => s == id && it == e.id,
                        None => orig.has_item(a, b, s, it),
                    }),
            decreases n - k,
        {
            let ghost mid = *self;
            let e = series[k];
            self.insert_entry(id, e.x, e.y, e.id);
            proof {
                assert(series@.take(k + 1).drop_last() =~= series@.take(k as int));
                assert(series@.take(k + 1).last() == series@[k as int]);
                assert forall|a: i64, b: i64, s: u64, it: usize|
                    self.has_item(a, b, s, it) <==> (match find_last(
                        series@.take(k + 1),
                        a,
                        b,
                    ) {
                        Some(ee) => s == id && it == ee.id,
                        None => orig.has_item(a, b, s, it),
                    }) by {
                    if a == e.x && b == e.y {
                        assert(find_last(series@.take(k + 1), a, b) == Some(series@[k as int]));
                    } else {
                        assert(find_last(series@.take(k + 1), a, b) == find_last(
                            series@.take(k as int),
                            a,
                            b,
                        ));
                    }
                }
            }
            k = k + 1;
        }
        proof {
            assert(series@.take(n as int) =~= series@);
        }
    }

    /// All `(series_id, item_id)` payloads whose stored point lies in the
    /// window: the outer level is restricted to the x interval through an
    /// ordered range search, then each matching bucket is restricted to
    /// the y interval, and the matches are concatenated in order.
    pub fn collision(&self, rect: QueryRect) -> (r: Vec<(u64, usize)>)
        requires
            self.wf(),
            rect.wf(),
        ensures
            r@ == bucket_hits(self.buckets@, rect),
    {
        let n = self.buckets.len();
        // Binary search for the first bucket whose x is at least the
        // window's low x edge; everything before it misses the window.
        let mut lo: usize = 0;
        let mut hi: usize = n;
        while lo < hi
            invariant
                self.wf(),
                rect.wf(),
                n == self.buckets@.len(),
                lo <= hi <= n,
                forall|k: int| 0 <= k < lo ==> !rect.x0.le_int((#[trigger] self.buckets@[k]).x as int),
                forall|k: int|
                    hi <= k < n ==> rect.x0.le_int((#[trigger] self.buckets@[k]).x as int),
            decreases hi - lo,
        {
            let mid = lo + (hi - lo) / 2;
            if rect.x0.le_coord(self.buckets[mid].x) {
                proof {
                    assert forall|k: int|
                        mid <= k < n implies rect.x0.le_int(
                        (#[trigger] self.buckets@[k]).x as int,
                    ) by {
                        if k > mid {
                            assert(self.buckets@[mid as int].x < self.buckets@[k].x);
                            lemma_cmp_int_monotone(
                                rect.x0,
                                self.buckets@[mid as int].x as int,
                                self.buckets@[k].x as int,
                            );
                        }
                    }
                }
                hi = mid;
            } else {
                proof {
                    assert forall|k: int|
                        0 <= k <= mid implies !rect.x0.le_int(
                        (#[trigger] self.buckets@[k]).x as int,
                    ) by {
                        if k < mid {
                            assert(self.buckets@[k].x < self.buckets@[mid as int].x);
                            lemma_cmp_int_monotone(
                                rect.x0,
                                self.buckets@[k].x as int,
                                self.buckets@[mid as int].x as int,
                            );
                        }
                    }
                }
                lo = mid + 1;
            }
        }
        proof {
            assert forall|k: int| 0 <= k < lo implies !rect.x_in((#[trigger] self.buckets@[k]).x) by {}
            lemma_bucket_hits_empty_prefix(self.buckets@, rect, lo as int);
        }
        let mut r: Vec<(u64, usize)> = Vec::new();
        let mut i: usize = lo;
        while i < n && rect.x1.gt_coord(self.buckets[i].x)
            invariant
                self.wf(),
                rect.wf(),
                n == self.buckets@.len(),
                lo <= i <= n,
                forall|k: int|
                    lo <= k < n ==> rect.x0.le_int((#[trigger] self.buckets@[k]).x as int),
                r@ == bucket_hits(self.buckets@.take(i as int), rect),
            decreases n - i,
        {
            let m = self.buckets[i].cells.len();
            let mut j: usize = 0;
            proof {
                assert(self.buckets@[i as int].cells@.take(0) =~= Seq::<Cell>::empty());
                assert(r@ =~= bucket_hits(self.buckets@.take(i as int), rect) + cell_hits(
                    self.buckets@[i as int].cells@.take(0),
                    rect,
                ));
            }
            while j < m
                invariant
                    self.wf(),
                    rect.wf(),
                    n == self.buckets@.len(),
                    i < n,
                    m == self.buckets@[i as int].cells@.len(),
                    j <= m,
                    r@ == bucket_hits(self.buckets@.take(i as int), rect) + cell_hits(
                        self.buckets@[i as int].cells@.take(j as int),
                        rect,
                    ),
                decreases m - j,
            {
                let c = self.buckets[i].cells[j];
                proof {
                    lemma_cell_hits_step(self.buckets@[i as int].cells@, rect, j as int);
                }
                if rect.y0.le_coord(c.y) && rect.y1.gt_coord(c.y) {
                    r.push((c.sid, c.item));
                }
                j = j + 1;
            }
            proof {
                assert(self.buckets@[i as int].cells@.take(m as int) =~= self.buckets@[i as int].cells@);
                lemma_bucket_hits_step(self.buckets@, rect, i as int);
            }
            i = i + 1;
        }
        proof {
            if i < n {
                assert forall|k: int|
                    i <= k < n implies !rect.x_in((#[trigger] self.buckets@[k]).x) by {
                    if k > i {
                        assert(self.buckets@[i as int].x < self.buckets@[k].x);
                        lemma_cmp_int_monotone(
                            rect.x1,
                            self.buckets@[i as int].x as int,
                            self.buckets@[k].x as int,
                        );
                    }
                }
            }
            lemma_bucket_hits_tail(self.buckets@, rect, i as int);
        }
        r
    }
}

} // verus!
