//! The reference-window tracking state machine.  Each tick the caller
//! reports the foreground window (after `candidate_window`) and whether the
//! current reference window still exists; `begin_tick` decides the new
//! reference and what the bar has to do.  The window system calls are the
//! caller's.

use vstd::prelude::*;
use crate::text::{
    append_chars, chars_of, digits_value, has_prefix, hex_chars, hex_digits, lemma_hex_digits_denote,
    string_from_chars,
};

verus! {

/// Consecutive ticks a new foreground window must be seen before it becomes
/// the reference window (flicker suppression).
pub const REFERENCE_WND_CHANGE_FRAME_COUNT: usize = 3;

/// Milliseconds between two tracking ticks.
pub const TRACK_INTERVAL_MILLIS: u64 = 100;

/// Height of the launcher bar in physical pixels.
pub const BAR_HEIGHT: i32 = 124;

/// Extended window style of a tool window.
pub const WS_EX_TOOLWINDOW: u32 = 0x0000_0080;

/// Extended window style of a window with a dialog frame.
pub const WS_EX_DLGMODALFRAME: u32 = 0x0000_0001;

/// Window style of a child window.
pub const WS_CHILD: u32 = 0x4000_0000;

/// Window style of a pop-up window.
pub const WS_POPUP: u32 = 0x8000_0000;

/// Window style of a window with a title bar.
pub const WS_CAPTION: u32 = 0x00C0_0000;

/// What the window system reports about a foreground window.
#[derive(Clone, Copy, Debug)]
pub struct WindowFacts {
    /// The handle names an existing window.
    pub is_window: bool,
    /// The window is visible.
    pub is_visible: bool,
    /// Process that owns the window.
    pub process_id: u32,
    /// This launcher's own process.
    pub current_process_id: u32,
    /// The window's root owner (0 when there is none).
    pub root_owner: isize,
    /// The task bar window (0 when not found).
    pub taskbar: isize,
    /// The notification area window inside the task bar (0 when not found).
    pub tray: isize,
    /// The extended window style bits.
    pub ex_style: u32,
    /// The window style bits.
    pub style: u32,
}

/// A window must not become the reference window: no window, invisible,
/// the launcher's own, owned by another window, the task bar or its
/// notification area, a tool or dialog-frame window, a child or pop-up
/// window, or one without a title bar.
pub open spec fn excluded_rule(hwnd: isize, f: WindowFacts) -> bool {
    ||| hwnd == 0
    ||| !f.is_window
    ||| !f.is_visible
    ||| f.process_id == f.current_process_id
    ||| (f.root_owner != 0 && f.root_owner != hwnd)
    ||| hwnd == f.taskbar
    ||| hwnd == f.tray
    ||| f.ex_style & WS_EX_TOOLWINDOW != 0
    ||| f.ex_style & WS_EX_DLGMODALFRAME != 0
    ||| f.style & WS_CHILD != 0
    ||| f.style & WS_POPUP != 0
    ||| f.style & WS_CAPTION == 0
}

/// Whether window `hwnd` is excluded from tracking.
pub fn is_excluded_window(hwnd: isize, facts: &WindowFacts) -> (r: bool)
    ensures
        r == excluded_rule(hwnd, *facts),
{
    if hwnd == 0 {
        return true;
    }
    if !facts.is_window || !facts.is_visible {
        return true;
    }
    if facts.process_id == facts.current_process_id {
        return true;
    }
    if facts.root_owner != 0 && facts.root_owner != hwnd {
        return true;
    }
    if hwnd == facts.taskbar || hwnd == facts.tray {
        return true;
    }
    if facts.ex_style & WS_EX_TOOLWINDOW != 0 || facts.ex_style & WS_EX_DLGMODALFRAME != 0 {
        return true;
    }
    if facts.style & WS_CHILD != 0 || facts.style & WS_POPUP != 0 || facts.style & WS_CAPTION == 0 {
        return true;
    }
    false
}

/// The tracking candidate for a foreground window: the window itself, or 0
/// when it is excluded.
pub fn candidate_window(foreground: isize, facts: &WindowFacts) -> (c: isize)
    ensures
        c == (if excluded_rule(foreground, *facts) {
            0
        } else {
            foreground
        }),
{
    if is_excluded_window(foreground, facts) {
        0
    } else {
        foreground
    }
}

/// Law: exclusion reads the extended style only through the tool-window
/// and dialog-frame bits, and the style only through the child, pop-up and
/// caption bits: two reports that agree on everything else and on those
/// bits exclude a window alike.
pub proof fn lemma_exclusion_reads_only_its_style_bits(hwnd: isize, f: WindowFacts, g: WindowFacts)
    requires
        g == (WindowFacts { ex_style: g.ex_style, style: g.style, ..f }),
        f.ex_style & (WS_EX_TOOLWINDOW | WS_EX_DLGMODALFRAME) == g.ex_style & (WS_EX_TOOLWINDOW
            | WS_EX_DLGMODALFRAME),
        f.style & (WS_CHILD | WS_POPUP | WS_CAPTION) == g.style & (WS_CHILD | WS_POPUP
            | WS_CAPTION),
    ensures
        excluded_rule(hwnd, f) == excluded_rule(hwnd, g),
{
    let (fx, gx, fs, gs) = (f.ex_style, g.ex_style, f.style, g.style);
    assert((fx & 0x81u32 == gx & 0x81u32) ==> ((fx & 0x80u32 != 0) == (gx & 0x80u32 != 0) && (fx
        & 0x01u32 != 0) == (gx & 0x01u32 != 0))) by (bit_vector);
    assert((fs & 0xC0C0_0000u32 == gs & 0xC0C0_0000u32) ==> ((fs & 0x4000_0000u32 != 0) == (gs
        & 0x4000_0000u32 != 0) && (fs & 0x8000_0000u32 != 0) == (gs & 0x8000_0000u32 != 0) && (fs
        & 0x00C0_0000u32 == 0) == (gs & 0x00C0_0000u32 == 0))) by (bit_vector);
    assert(WS_EX_TOOLWINDOW | WS_EX_DLGMODALFRAME == 0x81u32) by (bit_vector);
    assert(WS_CHILD | WS_POPUP | WS_CAPTION == 0xC0C0_0000u32) by (bit_vector);
}

/// Law: an ordinary application window is followed: an existing visible
/// window of another process, owned by no other window, that is neither the
/// task bar nor its notification area, is no tool or dialog-frame window,
/// no child or pop-up window and has a title bar, is its own candidate.
pub proof fn lemma_ordinary_windows_are_candidates(hwnd: isize, f: WindowFacts)
    requires
        hwnd != 0,
        f.is_window,
        f.is_visible,
        f.process_id != f.current_process_id,
        f.root_owner == 0 || f.root_owner == hwnd,
        hwnd != f.taskbar,
        hwnd != f.tray,
        f.ex_style & (WS_EX_TOOLWINDOW | WS_EX_DLGMODALFRAME) == 0,
        f.style & (WS_CHILD | WS_POPUP) == 0,
        f.style & WS_CAPTION != 0,
    ensures
        !excluded_rule(hwnd, f),
{
    let (x, s) = (f.ex_style, f.style);
    assert(WS_EX_TOOLWINDOW | WS_EX_DLGMODALFRAME == 0x81u32) by (bit_vector);
    assert(WS_CHILD | WS_POPUP == 0xC000_0000u32) by (bit_vector);
    assert(x & 0x81u32 == 0 ==> (x & 0x80u32 == 0 && x & 0x01u32 == 0)) by (bit_vector);
    assert(s & 0xC000_0000u32 == 0 ==> (s & 0x4000_0000u32 == 0 && s & 0x8000_0000u32 == 0))
        by (bit_vector);
}

/// Law: each unsuitable trait alone excludes a window: no handle, no
/// existing or visible window, the launcher's own window, a window owned by
/// another, the task bar or its notification area, a tool or dialog-frame
/// window, a child or pop-up window, or one without a title bar.
pub proof fn lemma_unsuitable_windows_are_excluded(hwnd: isize, f: WindowFacts)
    requires
        hwnd == 0 || !f.is_window || !f.is_visible || f.process_id == f.current_process_id || (
        f.root_owner != 0 && f.root_owner != hwnd) || hwnd == f.taskbar || hwnd == f.tray
            || f.ex_style & WS_EX_TOOLWINDOW != 0 || f.ex_style & WS_EX_DLGMODALFRAME != 0
            || f.style & WS_CHILD != 0 || f.style & WS_POPUP != 0 || f.style & WS_CAPTION == 0,
    ensures
        excluded_rule(hwnd, f),
{
}

/// Whether `hwnd` is a usable window handle: non-zero and, as the window
/// system answers (`is_window`), naming an existing window.
pub fn is_valid_window(hwnd: isize, is_window: bool) -> (r: bool)
    ensures
        r == (hwnd != 0 && is_window),
{
    hwnd != 0 && is_window
}

/// The abstract tracking state.
pub struct TrackingView {
    pub thread_started: bool,
    pub lock_enabled: bool,
    pub put_in_tray: bool,
    pub reference_hwnd: isize,
    pub pending_hwnd: isize,
    pub pending_count: usize,
    pub last_visible: bool,
}

impl TrackingView {
    /// The pending count stays below the confirmation threshold, and a
    /// window is pending exactly when the count is non-zero.
    pub open spec fn well_formed(self) -> bool {
        &&& self.pending_count < REFERENCE_WND_CHANGE_FRAME_COUNT
        &&& (self.pending_count == 0) == (self.pending_hwnd == 0)
    }

    /// No reference window, nothing pending, not locked.
    pub open spec fn released(self) -> TrackingView {
        TrackingView {
            reference_hwnd: 0,
            pending_hwnd: 0,
            pending_count: 0,
            lock_enabled: false,
            ..self
        }
    }
}

/// The state after a tick that saw `candidate` in front, where
/// `reference_alive` says whether the current reference window is still a
/// valid window; the flag says whether the reference window changed.
pub open spec fn observe_rule(v: TrackingView, candidate: isize, reference_alive: bool) -> (
    TrackingView,
    bool,
) {
    let invalid = v.reference_hwnd != 0 && !reference_alive;
    let s = if invalid {
        v.released()
    } else {
        v
    };
    if s.lock_enabled {
        if s.reference_hwnd == 0 && candidate != 0 {
            (TrackingView { reference_hwnd: candidate, ..s }, true)
        } else {
            (s, invalid)
        }
    } else if candidate == 0 {
        (TrackingView { pending_hwnd: 0, pending_count: 0, ..s }, invalid)
    } else if s.reference_hwnd == candidate {
        (TrackingView { pending_hwnd: 0, pending_count: 0, ..s }, invalid)
    } else {
        let count: int = if s.pending_hwnd == candidate {
            s.pending_count + 1
        } else {
            1
        };
        if count >= REFERENCE_WND_CHANGE_FRAME_COUNT {
            (TrackingView { reference_hwnd: candidate, pending_hwnd: 0, pending_count: 0, ..s }, true)
        } else {
            (TrackingView { pending_hwnd: candidate, pending_count: count as usize, ..s }, invalid)
        }
    }
}

/// What the bar does in a tick.
#[derive(Clone, Copy, Debug, PartialEq, Eq, Structural)]
pub enum TickPlan {
    /// Hide the bar and report it hidden; `announce_reference`: also report
    /// the (now absent) reference window.
    Hide { announce_reference: bool, locked: bool },
    /// Place the bar on `reference`; `announce_reference`: report the new
    /// reference window.
    Follow { reference: isize, locked: bool, announce_reference: bool },
}

/// State and plan of a whole tick: hidden while put in the tray or without
/// a reference window (remembering that the bar is no longer visible),
/// otherwise following the reference window.
pub open spec fn tick_rule(v: TrackingView, candidate: isize, reference_alive: bool) -> (
    TrackingView,
    TickPlan,
) {
    let (s, changed) = observe_rule(v, candidate, reference_alive);
    if s.put_in_tray {
        (
            TrackingView { last_visible: false, ..s },
            TickPlan::Hide {
                announce_reference: false,
                locked: s.lock_enabled,
            },
        )
    } else if s.reference_hwnd == 0 {
        (
            TrackingView { last_visible: false, ..s },
            TickPlan::Hide {
                announce_reference: changed,
                locked: s.lock_enabled,
            },
        )
    } else {
        (
            s,
            TickPlan::Follow {
                reference: s.reference_hwnd,
                locked: s.lock_enabled,
                announce_reference: changed,
            },
        )
    }
}

/// Law (locking): while the reference window is locked and still valid, no
/// tick changes it, whatever window comes to the front.
pub proof fn lemma_locked_reference_is_kept(v: TrackingView, candidate: isize)
    requires
        v.lock_enabled,
        v.reference_hwnd != 0,
    ensures
        tick_rule(v, candidate, true).0.reference_hwnd == v.reference_hwnd,
        tick_rule(v, candidate, true).0.lock_enabled,
{
}

/// Law (flicker suppression): unlocked, a window that is not pending yet
/// becomes the reference window on the third consecutive tick that sees it
/// in front, and not before.
pub proof fn lemma_third_tick_switches(v: TrackingView, candidate: isize)
    requires
        v.well_formed(),
        !v.lock_enabled,
        candidate != 0,
        candidate != v.reference_hwnd,
        v.pending_hwnd != candidate,
    ensures
        ({
            let v1 = tick_rule(v, candidate, true).0;
            let v2 = tick_rule(v1, candidate, true).0;
            let v3 = tick_rule(v2, candidate, true).0;
            &&& v1.reference_hwnd == v.reference_hwnd
            &&& v2.reference_hwnd == v.reference_hwnd
            &&& v3.reference_hwnd == candidate
        }),
{
}

/// Law (flicker suppression): unlocked, a tick moves the reference to a new
/// window only when that window was pending from the ticks before, one
/// short of the threshold.
pub proof fn lemma_switch_needs_confirmation(v: TrackingView, candidate: isize, reference_alive: bool)
    requires
        v.well_formed(),
        !v.lock_enabled,
    ensures
        ({
            let n = tick_rule(v, candidate, reference_alive).0;
            (n.reference_hwnd != v.reference_hwnd && n.reference_hwnd != 0) ==> {
                &&& n.reference_hwnd == candidate
                &&& v.pending_hwnd == candidate
                &&& v.pending_count == REFERENCE_WND_CHANGE_FRAME_COUNT - 1
            }
        }),
{
}

/// Law: when the reference window is no longer valid, the tick forgets it,
/// releases the lock and hides the bar, reporting the change.
pub proof fn lemma_vanished_reference_is_released(v: TrackingView, candidate: isize)
    requires
        v.well_formed(),
        v.reference_hwnd != 0,
    ensures
        tick_rule(v, candidate, false).0.reference_hwnd == 0,
        !tick_rule(v, candidate, false).0.lock_enabled,
        tick_rule(v, candidate, false).1 matches TickPlan::Hide { announce_reference, .. }
            && (announce_reference || v.put_in_tray),
{
}

/// Law: while put in the tray the bar is hidden (and reported hidden) on
/// every tick, whatever window comes to the front.
pub proof fn lemma_tray_keeps_bar_hidden(v: TrackingView, c1: isize, a1: bool, c2: isize, a2: bool)
    requires
        v.put_in_tray,
    ensures
        tick_rule(v, c1, a1).1 is Hide,
        !tick_rule(v, c1, a1).0.last_visible,
        tick_rule(v, c1, a1).0.put_in_tray,
        tick_rule(tick_rule(v, c1, a1).0, c2, a2).1 is Hide,
{
}

/// Law (flicker suppression): unlocked, a tick that moves the reference to a
/// new window `w` can only come after two ticks that also saw `w` in front,
/// so `w` was the (non-excluded) candidate on three consecutive ticks.
pub proof fn lemma_switch_needs_three_sightings(
    v0: TrackingView,
    c0: isize,
    a0: bool,
    c1: isize,
    a1: bool,
    c2: isize,
    a2: bool,
)
    requires
        v0.well_formed(),
        !v0.lock_enabled,
    ensures
        ({
            let v1 = tick_rule(v0, c0, a0).0;
            let v2 = tick_rule(v1, c1, a1).0;
            let v3 = tick_rule(v2, c2, a2).0;
            (v3.reference_hwnd != v2.reference_hwnd && v3.reference_hwnd != 0) ==> {
                &&& c0 == v3.reference_hwnd
                &&& c1 == v3.reference_hwnd
                &&& c2 == v3.reference_hwnd
            }
        }),
{
    let v1 = tick_rule(v0, c0, a0).0;
    let v2 = tick_rule(v1, c1, a1).0;
    lemma_tick_keeps_well_formed(v0, c0, a0);
    lemma_tick_keeps_well_formed(v1, c1, a1);
    assert(!v1.lock_enabled);
    assert(!v2.lock_enabled);
}

/// Law: a tick reports the reference window exactly when it changed it,
/// unless the launcher is in the tray (then nothing is reported); a bar that
/// follows, follows the new reference window, which is never 0; the bar is
/// hidden exactly when it is in the tray or there is no reference window.
pub proof fn lemma_tick_reports_exactly_reference_changes(
    v: TrackingView,
    candidate: isize,
    reference_alive: bool,
)
    ensures
        ({
            let (n, plan) = tick_rule(v, candidate, reference_alive);
            &&& n.put_in_tray == v.put_in_tray
            &&& (plan is Hide) == (v.put_in_tray || n.reference_hwnd == 0)
            &&& match plan {
                TickPlan::Hide { announce_reference, locked } => {
                    &&& announce_reference == (!v.put_in_tray && n.reference_hwnd
                        != v.reference_hwnd)
                    &&& locked == n.lock_enabled
                },
                TickPlan::Follow { reference, locked, announce_reference } => {
                    &&& reference == n.reference_hwnd
                    &&& reference != 0
                    &&& locked == n.lock_enabled
                    &&& announce_reference == (n.reference_hwnd != v.reference_hwnd)
                },
            }
        }),
{
}

/// Law: when locking finds no reference window, the first candidate
/// window becomes the reference at once and is reported.
pub proof fn lemma_lock_adopts_first_candidate(v: TrackingView, candidate: isize)
    requires
        v.lock_enabled,
        v.reference_hwnd == 0,
        candidate != 0,
        !v.put_in_tray,
    ensures
        tick_rule(v, candidate, true).0.reference_hwnd == candidate,
        tick_rule(v, candidate, true).1 == (TickPlan::Follow {
            reference: candidate,
            locked: true,
            announce_reference: true,
        }),
{
}

/// Law: every tick keeps the state well formed.
pub proof fn lemma_tick_keeps_well_formed(v: TrackingView, candidate: isize, reference_alive: bool)
    requires
        v.well_formed(),
    ensures
        tick_rule(v, candidate, reference_alive).0.well_formed(),
{
}

/// The tracking state shared by the tick loop and the launcher commands.
#[derive(Debug)]
pub struct TrackingState {
    thread_started: bool,
    lock_enabled: bool,
    put_in_tray: bool,
    reference_hwnd: isize,
    pending_hwnd: isize,
    pending_count: usize,
    last_visible: bool,
}

impl View for TrackingState {
    type V = TrackingView;

    closed spec fn view(&self) -> TrackingView {
        TrackingView {
            thread_started: self.thread_started,
            lock_enabled: self.lock_enabled,
            put_in_tray: self.put_in_tray,
            reference_hwnd: self.reference_hwnd,
            pending_hwnd: self.pending_hwnd,
            pending_count: self.pending_count,
            last_visible: self.last_visible,
        }
    }
}

impl TrackingState {
    #[verifier::type_invariant]
    spec fn state_invariant(self) -> bool {
        self@.well_formed()
    }

    fn from_view_parts(
        thread_started: bool,
        lock_enabled: bool,
        put_in_tray: bool,
        reference_hwnd: isize,
        pending_hwnd: isize,
        pending_count: usize,
        last_visible: bool,
    ) -> (s: TrackingState)
        requires
            pending_count < REFERENCE_WND_CHANGE_FRAME_COUNT,
            (pending_count == 0) == (pending_hwnd == 0),
        ensures
            s@ == (TrackingView {
                thread_started,
                lock_enabled,
                put_in_tray,
                reference_hwnd,
                pending_hwnd,
                pending_count,
                last_visible,
            }),
    {
        TrackingState {
            thread_started,
            lock_enabled,
            put_in_tray,
            reference_hwnd,
            pending_hwnd,
            pending_count,
            last_visible,
        }
    }

    /// The initial state: no tracking thread, unlocked, not in the tray, no
    /// reference or pending window, bar not visible.
    pub fn new() -> (s: TrackingState)
        ensures
            s@ == (TrackingView {
                thread_started: false,
                lock_enabled: false,
                put_in_tray: false,
                reference_hwnd: 0,
                pending_hwnd: 0,
                pending_count: 0,
                last_visible: false,
            }),
    {
        Self::from_view_parts(false, false, false, 0, 0, 0, false)
    }

    /// The current reference window (0 for none).
    pub fn reference_hwnd(&self) -> (r: isize)
        ensures
            r == self@.reference_hwnd,
    {
        self.reference_hwnd
    }

    /// Whether the reference window is locked.
    pub fn lock_enabled(&self) -> (r: bool)
        ensures
            r == self@.lock_enabled,
    {
        self.lock_enabled
    }

    /// Whether the launcher is put in the tray.
    pub fn put_in_tray(&self) -> (r: bool)
        ensures
            r == self@.put_in_tray,
    {
        self.put_in_tray
    }

    /// The window whose validity a tick needs to know: the reference window
    /// when there is one.
    pub fn reference_probe(&self) -> (r: Option<isize>)
        ensures
            self@.reference_hwnd == 0 ==> r is None,
            self@.reference_hwnd != 0 ==> r == Some(self@.reference_hwnd),
    {
        if self.reference_hwnd == 0 {
            None
        } else {
            Some(self.reference_hwnd)
        }
    }

    /// Runs the decisions of one tick: `candidate` is the foreground window
    /// after `candidate_window`, `reference_alive` whether the window of
    /// `reference_probe` is valid (ignored when there is none).
    pub fn begin_tick(&mut self, candidate: isize, reference_alive: bool) -> (p: TickPlan)
        ensures
            (final(self)@, p) == tick_rule(old(self)@, candidate, reference_alive),
    {
        proof {
            use_type_invariant(&*self);
        }
        let invalid = self.reference_hwnd != 0 && !reference_alive;
        let mut lock_enabled = self.lock_enabled;
        let mut reference = self.reference_hwnd;
        let mut pending = self.pending_hwnd;
        let mut count = self.pending_count;
        if invalid {
            lock_enabled = false;
            reference = 0;
            pending = 0;
            count = 0;
        }
        let mut changed = invalid;
        if lock_enabled {
            if reference == 0 && candidate != 0 {
                reference = candidate;
                changed = true;
            }
        } else if candidate == 0 {
            pending = 0;
            count = 0;
        } else {
            if reference != candidate {
                let next = if pending == candidate {
                    count + 1
                } else {
                    1
                };
                if next >= REFERENCE_WND_CHANGE_FRAME_COUNT {
                    reference = candidate;
                    pending = 0;
                    count = 0;
                    changed = true;
                } else {
                    pending = candidate;
                    count = next;
                }
            } else {
                pending = 0;
                count = 0;
            }
        }
        let put_in_tray = self.put_in_tray;
        let was_visible = self.last_visible;
        let plan = if put_in_tray {
            TickPlan::Hide { announce_reference: false, locked: lock_enabled }
        } else if reference == 0 {
            TickPlan::Hide { announce_reference: changed, locked: lock_enabled }
        } else {
            TickPlan::Follow { reference, locked: lock_enabled, announce_reference: changed }
        };
        let last_visible = if put_in_tray || reference == 0 {
            false
        } else {
            was_visible
        };
        *self = Self::from_view_parts(
            self.thread_started,
            lock_enabled,
            put_in_tray,
            reference,
            pending,
            count,
            last_visible,
        );
        plan
    }

    /// The reference window could not be measured: forget it, drop any
    /// pending window and release the lock.
    pub fn lose_reference(&mut self)
        ensures
            final(self)@ == old(self)@.released(),
    {
        *self = Self::from_view_parts(
            self.thread_started,
            false,
            self.put_in_tray,
            0,
            0,
            0,
            self.last_visible,
        );
    }

    /// The bar has been shown on the reference window.
    pub fn mark_shown(&mut self)
        ensures
            final(self)@ == (TrackingView { last_visible: true, ..old(self)@ }),
    {
        proof {
            use_type_invariant(&*self);
        }
        *self = Self::from_view_parts(
            self.thread_started,
            self.lock_enabled,
            self.put_in_tray,
            self.reference_hwnd,
            self.pending_hwnd,
            self.pending_count,
            true,
        );
    }

    /// Locks (`true`) or unlocks the reference window.
    pub fn set_lock(&mut self, locked: bool)
        ensures
            final(self)@ == (TrackingView { lock_enabled: locked, ..old(self)@ }),
    {
        proof {
            use_type_invariant(&*self);
        }
        *self = Self::from_view_parts(
            self.thread_started,
            locked,
            self.put_in_tray,
            self.reference_hwnd,
            self.pending_hwnd,
            self.pending_count,
            self.last_visible,
        );
    }

    /// Records whether the launcher is put in the tray.
    pub fn set_tray(&mut self, value: bool)
        ensures
            final(self)@ == (TrackingView { put_in_tray: value, ..old(self)@ }),
    {
        proof {
            use_type_invariant(&*self);
        }
        *self = Self::from_view_parts(
            self.thread_started,
            self.lock_enabled,
            value,
            self.reference_hwnd,
            self.pending_hwnd,
            self.pending_count,
            self.last_visible,
        );
    }

    /// Marks the tracking thread as started; true when the caller is the
    /// one that must start it (it had not been started).
    pub fn claim_thread(&mut self) -> (must_start: bool)
        ensures
            must_start == !old(self)@.thread_started,
            final(self)@ == (TrackingView { thread_started: true, ..old(self)@ }),
    {
        proof {
            use_type_invariant(&*self);
        }
        let must_start = !self.thread_started;
        *self = Self::from_view_parts(
            true,
            self.lock_enabled,
            self.put_in_tray,
            self.reference_hwnd,
            self.pending_hwnd,
            self.pending_count,
            self.last_visible,
        );
        must_start
    }
}

/// Records whether the launcher is put in the tray.
pub fn set_put_in_tray(state: &mut TrackingState, value: bool)
    ensures
        final(state)@ == (TrackingView { put_in_tray: value, ..old(state)@ }),
{
    state.set_tray(value);
}

/// The decision of starting the tracking thread: true when it is not
/// running yet, in which case it is now recorded as running.
pub fn ensure_tracking_thread(state: &mut TrackingState) -> (must_start: bool)
    ensures
        must_start == !old(state)@.thread_started,
        final(state)@ == (TrackingView { thread_started: true, ..old(state)@ }),
{
    state.claim_thread()
}

/// The payload reporting the reference window: its handle in `0x`
/// hexadecimal notation (absent for no window) and whether it is locked.
#[derive(Debug)]
pub struct ReferenceNotice {
    pub hwnd: Option<String>,
    pub locked: bool,
}

/// `{:#x}` notation of a window handle: `0x` and the lower-case hexadecimal
/// digits of its machine word.
pub open spec fn handle_notation(hwnd: isize) -> Seq<char> {
    "0x"@ + hex_digits((hwnd as usize) as nat)
}

/// Law: a handle's notation is `0x` followed by lower-case hexadecimal
/// digits, without leading zero, that denote the handle's machine word.
pub proof fn lemma_handle_notation_denotes(hwnd: isize)
    ensures
        has_prefix(handle_notation(hwnd), "0x"@),
        handle_notation(hwnd).len() > 2,
        digits_value(
            handle_notation(hwnd).subrange(2, handle_notation(hwnd).len() as int),
            16,
        ) == (hwnd as usize) as nat,
        hwnd != 0 ==> handle_notation(hwnd)[2] != '0',
{
    reveal_strlit("0x");
    let h = handle_notation(hwnd);
    let d = hex_digits((hwnd as usize) as nat);
    lemma_hex_digits_denote((hwnd as usize) as nat);
    assert(h.subrange(2, h.len() as int) =~= d);
    assert(h.subrange(0, 2) =~= "0x"@);
    if hwnd != 0 {
        assert((hwnd as usize) != 0) by (bit_vector)
            requires
                hwnd != 0,
        ;
        assert(h[2] == d[0]);
    }
}

/// The report of reference window `hwnd` (0 for none) and its lock state.
pub fn reference_notice(hwnd: isize, locked: bool) -> (n: ReferenceNotice)
    ensures
        n.locked == locked,
        hwnd == 0 ==> n.hwnd is None,
        hwnd != 0 ==> (n.hwnd matches Some(s) && s@ == handle_notation(hwnd)),
{
    if hwnd == 0 {
        ReferenceNotice { hwnd: None, locked }
    } else {
        let word = hwnd as usize;
        let mut text = chars_of("0x");
        let digits = hex_chars(word as u128);
        append_chars(&mut text, &digits);
        ReferenceNotice { hwnd: Some(string_from_chars(&text)), locked }
    }
}

/// Locks the reference window and reports it.
pub fn launcher_start_tracking(state: &mut TrackingState) -> (n: ReferenceNotice)
    ensures
        final(state)@ == (TrackingView { lock_enabled: true, ..old(state)@ }),
        n.locked,
        old(state)@.reference_hwnd == 0 ==> n.hwnd is None,
        old(state)@.reference_hwnd != 0 ==> (n.hwnd matches Some(s) && s@ == handle_notation(
            old(state)@.reference_hwnd,
        )),
{
    state.set_lock(true);
    reference_notice(state.reference_hwnd(), state.lock_enabled())
}

/// Unlocks the reference window and reports it.
pub fn launcher_stop_tracking(state: &mut TrackingState) -> (n: ReferenceNotice)
    ensures
        final(state)@ == (TrackingView { lock_enabled: false, ..old(state)@ }),
        !n.locked,
        old(state)@.reference_hwnd == 0 ==> n.hwnd is None,
        old(state)@.reference_hwnd != 0 ==> (n.hwnd matches Some(s) && s@ == handle_notation(
            old(state)@.reference_hwnd,
        )),
{
    state.set_lock(false);
    reference_notice(state.reference_hwnd(), state.lock_enabled())
}

/// A window rectangle in physical screen coordinates.
#[derive(Clone, Copy, Debug)]
pub struct WindowRect {
    pub left: i32,
    pub top: i32,
    pub right: i32,
    pub bottom: i32,
}

/// Where the bar is reported to be: the payload of a tracking report.
#[derive(Clone, Copy, Debug, PartialEq, Eq, Structural)]
pub struct TrackedPlacement {
    pub x: i32,
    pub y: i32,
    pub width: i32,
    pub visible: bool,
}

/// The report of a hidden bar.
pub fn hidden_placement() -> (p: TrackedPlacement)
    ensures
        p == (TrackedPlacement { x: 0, y: 0, width: 0, visible: false }),
{
    TrackedPlacement { x: 0, y: 0, width: 0, visible: false }
}

/// The bar geometry over `rect` can be computed in 32-bit arithmetic.
pub open spec fn placement_in_range(rect: WindowRect) -> bool {
    &&& i32::MIN <= rect.right - rect.left <= i32::MAX
    &&& i32::MIN <= rect.top - BAR_HEIGHT
}

/// Whether `tracked_placement` can be asked for `rect`.
pub fn placement_fits(rect: &WindowRect) -> (r: bool)
    ensures
        r == placement_in_range(*rect),
{
    let width = rect.right as i64 - rect.left as i64;
    let top = rect.top as i64 - BAR_HEIGHT as i64;
    i32::MIN as i64 <= width && width <= i32::MAX as i64 && i32::MIN as i64 <= top
}

/// The bar placed on top of `rect`: its left edge, `BAR_HEIGHT` above the
/// window's top, as wide as the window (`right` is exclusive; at least 1).
pub fn tracked_placement(rect: &WindowRect) -> (p: TrackedPlacement)
    requires
        placement_in_range(*rect),
    ensures
        p.x == rect.left,
        p.y == rect.top - BAR_HEIGHT,
        p.width == (if rect.right - rect.left >= 1 {
            rect.right - rect.left
        } else {
            1
        }),
        p.visible,
{
    let span = rect.right - rect.left;
    let width = if span >= 1 {
        span
    } else {
        1
    };
    TrackedPlacement { x: rect.left, y: rect.top - BAR_HEIGHT, width, visible: true }
}

} // verus!
