//! The color overlay: a mapping from board coordinate (row, col) to an RGB
//! color, visualizing the current diagnostic state. The rendering layer
//! observes it read-only; every entry comes from a diagnostic run or a live
//! scan, so its coordinates stay within the board's matrix.

use vstd::prelude::*;

use crate::color::Rgb;

verus! {

/// One overlay cell.
#[derive(Clone, Copy, Debug)]
pub struct OverlayEntry {
    pub row: usize,
    pub col: usize,
    pub color: Rgb,
}

/// The coordinate an entry colors.
pub open spec fn entry_key(e: OverlayEntry) -> (usize, usize) {
    (e.row, e.col)
}

/// Whether some entry of `s` colors coordinate `k`.
pub open spec fn has_key(s: Seq<OverlayEntry>, k: (usize, usize)) -> bool {
    exists|i: int| 0 <= i < s.len() && entry_key(s[i]) == k
}

/// The position of the entry coloring `k`; meaningful when the keys of `s`
/// are distinct and `k` is present.
pub open spec fn key_index(s: Seq<OverlayEntry>, k: (usize, usize)) -> int {
    choose|i: int| 0 <= i < s.len() && entry_key(s[i]) == k
}

/// Whether no two entries of `s` color the same coordinate.
pub open spec fn distinct_keys(s: Seq<OverlayEntry>) -> bool {
    forall|i: int, j: int|
        0 <= i < j < s.len() ==> entry_key(s[i]) != entry_key(s[j])
}

/// With distinct keys, the entry coloring `k` sits at one position only.
proof fn lemma_key_index_is(s: Seq<OverlayEntry>, k: (usize, usize), i: int)
    requires
        distinct_keys(s),
        0 <= i < s.len(),
        entry_key(s[i]) == k,
    ensures
        has_key(s, k),
        key_index(s, k) == i,
{
    assert(has_key(s, k));
    let j = key_index(s, k);
    if j != i {
        if j < i {
            assert(entry_key(s[j]) != entry_key(s[i]));
        } else {
            assert(entry_key(s[i]) != entry_key(s[j]));
        }
    }
}

/// The coordinate-to-color mapping itself, stored as a list of cells with
/// distinct coordinates.
pub struct ColorOverlay {
    entries: Vec<OverlayEntry>,
}

impl View for ColorOverlay {
    type V = Map<(usize, usize), Rgb>;

    closed spec fn view(&self) -> Map<(usize, usize), Rgb> {
        Map::new(
            |k: (usize, usize)| has_key(self.entries@, k),
            |k: (usize, usize)| self.entries@[key_index(self.entries@, k)].color,
        )
    }
}

impl ColorOverlay {
    /// Each coordinate is colored at most once.
    pub closed spec fn wf(&self) -> bool {
        distinct_keys(self.entries@)
    }

    /// An empty overlay.
    pub fn new() -> (o: Self)
        ensures
            o.wf(),
            o@ =~= Map::<(usize, usize), Rgb>::empty(),
    {
        ColorOverlay { entries: Vec::new() }
    }

    /// Drops every entry.
    pub fn clear(&mut self)
        ensures
            final(self).wf(),
            final(self)@ =~= Map::<(usize, usize), Rgb>::empty(),
    {
        self.entries = Vec::new();
    }

    /// The position of the entry coloring (row, col), if any.
    fn find(&self, row: usize, col: usize) -> (r: Option<usize>)
        ensures
            match r {
                Some(i) => i < self.entries@.len() && entry_key(self.entries@[i as int]) == (
                row,
                col,
                ),
                None => !has_key(self.entries@, (row, col)),
            },
    {
        let mut i: usize = 0;
        while i < self.entries.len()
            invariant
                i <= self.entries@.len(),
                forall|j: int| 0 <= j < i ==> entry_key(self.entries@[j]) != (row, col),
            decreases self.entries@.len() - i,
        {
            if self.entries[i].row == row && self.entries[i].col == col {
                return Some(i);
            }
            i = i + 1;
        }
        None
    }

    /// The color at a coordinate, if the overlay holds one.
    pub fn get(&self, row: usize, col: usize) -> (r: Option<Rgb>)
        requires
            self.wf(),
        ensures
            r == if self@.contains_key((row, col)) {
                Some(self@[(row, col)])
            } else {
                Option::<Rgb>::None
            },
    {
        match self.find(row, col) {
            Some(i) => {
                proof {
                    lemma_key_index_is(self.entries@, (row, col), i as int);
                }
                Some(self.entries[i].color)
            },
            None => None,
        }
    }

    /// Whether the overlay holds no entry at all.
    pub fn is_empty(&self) -> (r: bool)
        requires
            self.wf(),
        ensures
            r == (self@ =~= Map::<(usize, usize), Rgb>::empty()),
    {
        let r = self.entries.len() == 0;
        proof {
            if self.entries@.len() > 0 {
                assert(has_key(self.entries@, entry_key(self.entries@[0])));
                assert(self@.dom().contains(entry_key(self.entries@[0])));
            }
        }
        r
    }

    /// Colors one coordinate, replacing any previous color there.
    pub fn set(&mut self, row: usize, col: usize, color: Rgb)
        requires
            old(self).wf(),
        ensures
            final(self).wf(),
            final(self)@ =~= old(self)@.insert((row, col), color),
    {
        let k: (usize, usize) = (row, col);
        let e = OverlayEntry { row, col, color };
        let ghost s = self.entries@;
        match self.find(row, col) {
            Some(i) => {
                self.entries.set(i, e);
                proof {
                    let u = self.entries@;
                    assert(forall|j: int| 0 <= j < u.len() ==> entry_key(u[j]) == entry_key(s[j]));
                    assert(distinct_keys(u));
                    assert forall|k2: (usize, usize)|
                        #[trigger] has_key(u, k2) == has_key(s, k2) by {
                        if has_key(u, k2) {
                            let j = choose|j: int| 0 <= j < u.len() && entry_key(u[j]) == k2;
                            assert(entry_key(s[j]) == k2);
                        }
                        if has_key(s, k2) {
                            let j = choose|j: int| 0 <= j < s.len() && entry_key(s[j]) == k2;
                            assert(entry_key(u[j]) == k2);
                        }
                    }
                    lemma_key_index_is(u, k, i as int);
                    assert forall|k2: (usize, usize)|
                        has_key(u, k2) && k2 != k implies u[key_index(u, k2)].color == s[key_index(
                        s,
                        k2,
                    )].color by {
                        let j = choose|j: int| 0 <= j < u.len() && entry_key(u[j]) == k2;
                        assert(j != i);
                        lemma_key_index_is(u, k2, j);
                        lemma_key_index_is(s, k2, j);
                    }
                    assert(final(self)@ =~= old(self)@.insert(k, color));
                }
            },
            None => {
                self.entries.push(e);
                proof {
                    let u = self.entries@;
                    assert(u =~= s.push(e));
                    assert forall|i2: int, j2: int| 0 <= i2 < j2 < u.len() implies entry_key(
                        u[i2],
                    ) != entry_key(u[j2]) by {
                        if j2 == u.len() - 1 {
                            assert(entry_key(u[i2]) == entry_key(s[i2]));
                        }
                    }
                    lemma_key_index_is(u, k, u.len() - 1);
                    assert forall|k2: (usize, usize)|
                        has_key(u, k2) && k2 != k implies has_key(s, k2) && u[key_index(
                        u,
                        k2,
                    )].color == s[key_index(s, k2)].color by {
                        let j = choose|j: int| 0 <= j < u.len() && entry_key(u[j]) == k2;
                        assert(j != u.len() - 1);
                        assert(entry_key(s[j]) == k2);
                        lemma_key_index_is(u, k2, j);
                        lemma_key_index_is(s, k2, j);
                    }
                    assert forall|k2: (usize, usize)| has_key(s, k2) implies has_key(u, k2) by {
                        let j = choose|j: int| 0 <= j < s.len() && entry_key(s[j]) == k2;
                        assert(entry_key(u[j]) == k2);
                    }
                    assert(final(self)@ =~= old(self)@.insert(k, color));
                }
            },
        }
    }

    /// Removes any color at one coordinate.
    pub fn unset(&mut self, row: usize, col: usize)
        requires
            old(self).wf(),
        ensures
            final(self).wf(),
            final(self)@ =~= old(self)@.remove((row, col)),
    {
        let k: (usize, usize) = (row, col);
        let ghost s = self.entries@;
        match self.find(row, col) {
            Some(i) => {
                self.entries.remove(i);
                proof {
                    let u = self.entries@;
                    assert(u =~= s.remove(i as int));
                    assert(forall|j: int| 0 <= j < i ==> u[j] == s[j]);
                    assert(forall|j: int| i <= j < u.len() ==> u[j] == s[j + 1]);
                    let shift = |j: int| if j < i { j } else { j + 1 };
                    assert forall|i2: int, j2: int| 0 <= i2 < j2 < u.len() implies entry_key(
                        u[i2],
                    ) != entry_key(u[j2]) by {
                        assert(u[i2] == s[shift(i2)]);
                        assert(u[j2] == s[shift(j2)]);
                        assert(0 <= shift(i2) < shift(j2) < s.len());
                    }
                    assert forall|k2: (usize, usize)|
                        has_key(u, k2) implies k2 != k && has_key(s, k2) && u[key_index(
                        u,
                        k2,
                    )].color == s[key_index(s, k2)].color by {
                        let j = choose|j: int| 0 <= j < u.len() && entry_key(u[j]) == k2;
                        assert(u[j] == s[shift(j)]);
                        lemma_key_index_is(s, k, i as int);
                        lemma_key_index_is(u, k2, j);
                        lemma_key_index_is(s, k2, shift(j));
                    }
                    assert forall|k2: (usize, usize)|
                        has_key(s, k2) && k2 != k implies has_key(u, k2) by {
                        let j = choose|j: int| 0 <= j < s.len() && entry_key(s[j]) == k2;
                        lemma_key_index_is(s, k, i as int);
                        assert(j != i);
                        if j < i {
                            assert(entry_key(u[j]) == k2);
                        } else {
                            assert(entry_key(u[j - 1]) == k2);
                        }
                    }
                    assert(final(self)@ =~= old(self)@.remove(k));
                }
            },
            None => {
                proof {
                    assert(final(self)@ =~= old(self)@.remove(k));
                }
            },
        }
    }
}

} // verus!
