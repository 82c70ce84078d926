//! Matrix diagnostic results: three independent fault planes over the
//! board's physical matrix, and their translation into the color overlay.

use vstd::prelude::*;

use crate::color::Rgb;
use crate::overlay::ColorOverlay;

verus! {

/// Which stress pattern the hardware diagnostic performs.
#[derive(Clone, Copy, Debug, PartialEq, Eq, Structural)]
pub enum DiagnosticMode {
    /// The standard pattern.
    Normal,
    /// The bounce-detection pattern.
    Bouncing,
}

/// A rectangular plane of per-cell flags.
pub open spec fn plane_wf(g: Seq<Vec<bool>>, rows: int, cols: int) -> bool {
    g.len() == rows && forall|i: int| 0 <= i < rows ==> g[i]@.len() == cols
}

/// One diagnostic invocation's outcome: per-cell "missing", "sticking" and
/// "bouncing" flags over the matrix, plus the overall success flag.
pub struct DiagnosticResult {
    pub rows: usize,
    pub cols: usize,
    pub missing: Vec<Vec<bool>>,
    pub sticking: Vec<Vec<bool>>,
    pub bouncing: Vec<Vec<bool>>,
    pub success: bool,
}

impl DiagnosticResult {
    /// All three planes cover the same rows x cols matrix.
    pub open spec fn wf(&self) -> bool {
        &&& plane_wf(self.missing@, self.rows as int, self.cols as int)
        &&& plane_wf(self.sticking@, self.rows as int, self.cols as int)
        &&& plane_wf(self.bouncing@, self.rows as int, self.cols as int)
    }

    pub open spec fn missing_at(&self, r: int, c: int) -> bool {
        self.missing@[r]@[c]
    }

    pub open spec fn sticking_at(&self, r: int, c: int) -> bool {
        self.sticking@[r]@[c]
    }

    pub open spec fn bouncing_at(&self, r: int, c: int) -> bool {
        self.bouncing@[r]@[c]
    }

    /// Whether any fault plane flags the cell.
    pub open spec fn any_fault(&self, r: int, c: int) -> bool {
        self.missing_at(r, c) || self.sticking_at(r, c) || self.bouncing_at(r, c)
    }

    /// One color channel per fault plane, 255 where the plane flags the
    /// cell; simultaneous faults blend.
    pub open spec fn fault_color(&self, r: int, c: int) -> Rgb {
        Rgb {
            r: if self.missing_at(r, c) {
                255
            } else {
                0
            },
            g: if self.sticking_at(r, c) {
                255
            } else {
                0
            },
            b: if self.bouncing_at(r, c) {
                255
            } else {
                0
            },
        }
    }

    /// Translates the fault planes into overlay entries: within the matrix
    /// a cell is colored exactly when some plane flags it, and any prior
    /// entry of an unflagged cell is removed; coordinates outside the
    /// matrix keep whatever they held.
    pub fn apply_to_overlay(&self, overlay: &mut ColorOverlay)
        requires
            self.wf(),
            old(overlay).wf(),
        ensures
            final(overlay).wf(),
            final(overlay)@ =~= overlay_after(*self, old(overlay)@),
    {
        let ghost before = overlay@;
        let mut r: usize = 0;
        while r < self.rows
            invariant
                self.wf(),
                overlay.wf(),
                r <= self.rows,
                forall|k: (usize, usize)|
                    k.0 < r && k.1 < self.cols ==> #[trigger] overlay@.contains_key(k)
                        == self.any_fault(k.0 as int, k.1 as int) && (overlay@.contains_key(k)
                        ==> overlay@[k] == self.fault_color(k.0 as int, k.1 as int)),
                forall|k: (usize, usize)|
                    !(k.0 < r && k.1 < self.cols) ==> #[trigger] overlay@.contains_key(k)
                        == before.contains_key(k) && (before.contains_key(k) ==> overlay@[k]
                        == before[k]),
            decreases self.rows - r,
        {
            let mut c: usize = 0;
            while c < self.cols
                invariant
                    self.wf(),
                    overlay.wf(),
                    r < self.rows,
                    c <= self.cols,
                    forall|k: (usize, usize)|
                        (k.0 < r && k.1 < self.cols) || (k.0 == r && k.1 < c)
                            ==> #[trigger] overlay@.contains_key(k) == self.any_fault(
                            k.0 as int,
                            k.1 as int,
                        ) && (overlay@.contains_key(k) ==> overlay@[k] == self.fault_color(
                            k.0 as int,
                            k.1 as int,
                        )),
                    forall|k: (usize, usize)|
                        !((k.0 < r && k.1 < self.cols) || (k.0 == r && k.1 < c))
                            ==> #[trigger] overlay@.contains_key(k) == before.contains_key(k) && (
                        before.contains_key(k) ==> overlay@[k] == before[k]),
                decreases self.cols - c,
            {
                let red: u8 = if self.missing[r][c] {
                    255
                } else {
                    0
                };
                let green: u8 = if self.sticking[r][c] {
                    255
                } else {
                    0
                };
                let blue: u8 = if self.bouncing[r][c] {
                    255
                } else {
                    0
                };
                if red != 0 || green != 0 || blue != 0 {
                    overlay.set(r, c, Rgb { r: red, g: green, b: blue });
                } else {
                    overlay.unset(r, c);
                }
                c = c + 1;
            }
            r = r + 1;
        }
        proof {
            assert(final(overlay)@ =~= overlay_after(*self, before));
        }
    }
}

/// Applying a diagnostic result keeps the overlay within the board's
/// physical matrix: when every prior entry lay within rows x cols and the
/// result's planes do not exceed them, every entry afterwards does too.
pub proof fn lemma_overlay_stays_in_bounds(
    res: DiagnosticResult,
    before: Map<(usize, usize), Rgb>,
    rows: usize,
    cols: usize,
)
    requires
        res.rows <= rows,
        res.cols <= cols,
        forall|k: (usize, usize)| before.contains_key(k) ==> k.0 < rows && k.1 < cols,
    ensures
        forall|k: (usize, usize)|
            overlay_after(res, before).contains_key(k) ==> k.0 < rows && k.1 < cols,
{
}

/// The overlay contents after one diagnostic result has been applied to
/// `before`: within the matrix, exactly the flagged cells, each in its
/// fault color; outside it, `before` unchanged.
pub open spec fn overlay_after(
    res: DiagnosticResult,
    before: Map<(usize, usize), Rgb>,
) -> Map<(usize, usize), Rgb> {
    Map::new(
        |k: (usize, usize)|
            if k.0 < res.rows && k.1 < res.cols {
                res.any_fault(k.0 as int, k.1 as int)
            } else {
                before.contains_key(k)
            },
        |k: (usize, usize)|
            if k.0 < res.rows && k.1 < res.cols {
                res.fault_color(k.0 as int, k.1 as int)
            } else {
                before[k]
            },
    )
}

} // verus!
