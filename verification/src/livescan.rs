//! Live scan mode: a cancellable, indefinite diagnostic driven by the
//! board's matrix-change notifications. Any key reported pressed is marked
//! with the active color at its electrical address; stopping unregisters
//! the listener, hands the captured keymap back for restoration, and
//! re-enables the test controls. Stopping when no scan is active does
//! nothing.

use vstd::prelude::*;

use crate::color::{active_color, make_active_color, Rgb};
use crate::keymap::{neutral_view, KeyMap, KeymapGuard};
use crate::overlay::ColorOverlay;
use crate::runner::TestControls;

verus! {

/// One key's live state: its electrical address and whether it is pressed.
#[derive(Clone, Copy, Debug, PartialEq, Eq, Structural)]
pub struct KeyState {
    pub row: usize,
    pub col: usize,
    pub pressed: bool,
}

/// The overlay contents after one matrix-change event: every pressed key's
/// address gains the active color; everything else keeps its color.
pub open spec fn presses_applied(
    before: Map<(usize, usize), Rgb>,
    keys: Seq<KeyState>,
) -> Map<(usize, usize), Rgb>
    decreases keys.len(),
{
    if keys.len() == 0 {
        before
    } else {
        let prev = presses_applied(before, keys.drop_last());
        let k = keys.last();
        if k.pressed {
            prev.insert((k.row, k.col), active_color())
        } else {
            prev
        }
    }
}

/// A matrix-change event keeps the overlay within the board's physical
/// matrix: when every prior entry and every key address lies within
/// rows x cols, every entry after the event does too.
pub proof fn lemma_presses_stay_in_bounds(
    before: Map<(usize, usize), Rgb>,
    keys: Seq<KeyState>,
    rows: usize,
    cols: usize,
)
    requires
        forall|k: (usize, usize)| before.contains_key(k) ==> k.0 < rows && k.1 < cols,
        forall|i: int| 0 <= i < keys.len() ==> keys[i].row < rows && keys[i].col < cols,
    ensures
        forall|k: (usize, usize)|
            presses_applied(before, keys).contains_key(k) ==> k.0 < rows && k.1 < cols,
    decreases keys.len(),
{
    if keys.len() > 0 {
        lemma_presses_stay_in_bounds(before, keys.drop_last(), rows, cols);
        let last = keys.last();
        assert(keys[keys.len() - 1] == last);
        assert forall|k: (usize, usize)|
            presses_applied(before, keys).contains_key(k) implies k.0 < rows && k.1 < cols by {
            if !(last.pressed && k == ((last.row, last.col))) {
                assert(presses_applied(before, keys.drop_last()).contains_key(k));
            }
        }
    }
}

/// One active scan: the captured keymap and the listener registration.
pub struct LiveScan {
    guard: KeymapGuard,
}

/// The live scan service. At most one scan runs at a time; the stop request
/// is a no-op while none does.
pub struct LiveScanMode {
    current: Option<LiveScan>,
}

impl LiveScanMode {
    /// Whether a scan is running.
    pub closed spec fn is_active(&self) -> bool {
        self.current is Some
    }

    /// The keymap the running scan captured.
    pub closed spec fn saved_keymap(&self) -> Seq<(Seq<char>, Seq<Seq<char>>)>
        recommends
            self.is_active(),
    {
        self.current->0.guard@
    }

    /// No scan is running at first.
    pub fn new() -> (m: Self)
        ensures
            !m.is_active(),
    {
        LiveScanMode { current: None }
    }

    /// Starts a scan: disables the test controls, captures the keymap,
    /// clears the overlay, and yields the neutral keymap the caller applies
    /// before registering the matrix-change listener.
    pub fn start(
        &mut self,
        keymap: KeyMap,
        overlay: &mut ColorOverlay,
        controls: &mut TestControls,
    ) -> (neutral: KeyMap)
        requires
            !old(self).is_active(),
            old(controls).is_enabled(),
        ensures
            final(self).is_active(),
            final(self).saved_keymap() == keymap@,
            !final(controls).is_enabled(),
            final(overlay).wf(),
            final(overlay)@ =~= Map::<(usize, usize), Rgb>::empty(),
            neutral@ =~= neutral_view(keymap@),
    {
        controls.disable();
        let (guard, neutral) = KeymapGuard::engage(keymap);
        overlay.clear();
        self.current = Some(LiveScan { guard });
        neutral
    }

    /// Recomputes overlay entries from the currently pressed keys: one
    /// matrix-change event.
    pub fn on_matrix_changed(&self, keys: &Vec<KeyState>, overlay: &mut ColorOverlay)
        requires
            self.is_active(),
            old(overlay).wf(),
        ensures
            final(overlay).wf(),
            final(overlay)@ =~= presses_applied(old(overlay)@, keys@),
    {
        let ghost before = overlay@;
        let mut i: usize = 0;
        while i < keys.len()
            invariant
                overlay.wf(),
                i <= keys@.len(),
                overlay@ =~= presses_applied(before, keys@.take(i as int)),
            decreases keys@.len() - i,
        {
            let k = keys[i];
            if k.pressed {
                overlay.set(k.row, k.col, make_active_color());
            }
            proof {
                assert(keys@.take(i + 1).drop_last() =~= keys@.take(i as int));
                assert(keys@.take(i + 1).last() == keys@[i as int]);
                assert(overlay@ =~= presses_applied(before, keys@.take(i + 1)));
            }
            i = i + 1;
        }
        proof {
            assert(keys@.take(keys@.len() as int) =~= keys@);
        }
    }

    /// Fulfills the stop signal. With a scan running, unregisters it,
    /// re-enables the test controls, and hands back the captured keymap for
    /// restoration; with none running, nothing happens.
    pub fn stop(&mut self, controls: &mut TestControls) -> (r: Option<KeyMap>)
        ensures
            !old(self).is_active() ==> r is None && *final(self) == *old(self) && *final(controls)
                == *old(controls),
            old(self).is_active() ==> {
                &&& !final(self).is_active()
                &&& final(controls).is_enabled()
                &&& r matches Some(km) && km@ == old(self).saved_keymap()
            },
    {
        match self.current.take() {
            Some(scan) => {
                controls.enable();
                Some(scan.guard.release())
            },
            None => None,
        }
    }
}

} // verus!
