use std::sync::atomic::AtomicBool;
use std::sync::atomic::Ordering;
use std::sync::Arc;
use std::time::Instant;
use vstd::prelude::*;

use crate::clock::duration_nanos;
use crate::clock::instant_elapsed;
use crate::clock::instant_now;
use crate::settings::HotkeyMode;

verus! {

/// Two presses of the target key closer together than this count as a double tap.
pub const DOUBLE_TAP_THRESHOLD_MS: u64 = 400;

/// `DOUBLE_TAP_THRESHOLD_MS` in nanoseconds.
pub const DOUBLE_TAP_THRESHOLD_NANOS: i128 = 400_000_000;

/// The time that separates a press at `last` from one at `now`; zero when
/// `now` is not later (a clock that seems to go back counts as no time passing).
pub open spec fn elapsed_nanos(now: int, last: int) -> int {
    if now > last {
        now - last
    } else {
        0
    }
}

/// Whether a press at `now` follows one at `last` closely enough to form a double tap.
pub open spec fn within_threshold(now: int, last: int) -> bool {
    elapsed_nanos(now, last) < DOUBLE_TAP_THRESHOLD_MS * 1_000_000
}

/// The detector's state, as plain values: the time of the pending first press
/// (nanoseconds on the state's own clock) and whether the key is held.
pub struct TapModel {
    pub last_press: Option<i128>,
    pub key_down: bool,
}

/// One key event applied to the detector: the new state and whether it completed a double tap.
pub open spec fn tap_step(s: TapModel, is_press: bool, is_target: bool, now: i128) -> (TapModel, bool) {
    if !is_target {
        (s, false)
    } else if is_press && !s.key_down {
        match s.last_press {
            Some(last) if within_threshold(now as int, last as int) => (
                TapModel { last_press: None, key_down: true },
                true,
            ),
            _ => (TapModel { last_press: Some(now), key_down: true }, false),
        }
    } else if !is_press {
        (TapModel { last_press: s.last_press, key_down: false }, false)
    } else {
        (s, false)
    }
}

/// Double-tap detection state for one key.
pub struct DoubleTapState {
    /// When the pending first press happened, in nanoseconds on this state's clock.
    pub last_press: Option<i128>,
    /// Whether the key is currently held down.
    pub key_down: bool,
    /// The clock origin that the times above count from.
    pub clock: Instant,
    /// The clock readings taken to decide on key events, oldest first.
    pub readings: Ghost<Seq<i128>>,
}

impl DoubleTapState {
    pub open spec fn model(&self) -> TapModel {
        TapModel { last_press: self.last_press, key_down: self.key_down }
    }

    /// A detector with no pending press and the key up; its clock starts now.
    pub fn new() -> (s: Self)
        ensures
            s.last_press is None,
            !s.key_down,
            s.readings@ == Seq::<i128>::empty(),
    {
        DoubleTapState {
            last_press: None,
            key_down: false,
            clock: instant_now(),
            readings: Ghost(Seq::empty()),
        }
    }

    /// Reads this state's clock and records the reading.
    fn take_reading(&mut self) -> (t: i128)
        ensures
            t >= 0,
            final(self).readings@ == old(self).readings@.push(t),
            final(self).model() == old(self).model(),
            final(self).clock == old(self).clock,
    {
        let t = self.now_nanos();
        proof {
            self.readings = Ghost(self.readings@.push(t));
        }
        t
    }

    /// The current time on this state's clock, in nanoseconds (saturating at `i128::MAX`).
    pub fn now_nanos(&self) -> (t: i128)
        ensures
            t >= 0,
    {
        let d = instant_elapsed(&self.clock);
        let n = duration_nanos(&d);
        if n > 0x7fff_ffff_ffff_ffff_ffff_ffff_ffff_ffffu128 {
            0x7fff_ffff_ffff_ffff_ffff_ffff_ffff_ffffi128
        } else {
            n as i128
        }
    }
}

impl Default for DoubleTapState {
    fn default() -> (s: Self)
        ensures
            s.last_press is None,
            !s.key_down,
            s.readings@ == Seq::<i128>::empty(),
    {
        DoubleTapState::new()
    }
}

/// Whether a press at `now` comes less than the threshold after one at `last`.
fn is_within_threshold(now: i128, last: i128) -> (b: bool)
    ensures
        b == within_threshold(now as int, last as int),
{
    if now <= last {
        true
    } else if now < i128::MIN + DOUBLE_TAP_THRESHOLD_NANOS {
        true
    } else {
        last > now - DOUBLE_TAP_THRESHOLD_NANOS
    }
}

/// Applies one key event, observed at time `now`, to the detector.
/// Returns whether the event completed a double tap.
pub fn check_double_tap_at(state: &mut DoubleTapState, is_press: bool, is_target: bool, now: i128) -> (tapped: bool)
    ensures
        (final(state).model(), tapped) == tap_step(old(state).model(), is_press, is_target, now),
        final(state).clock == old(state).clock,
        final(state).readings == old(state).readings,
{
    if !is_target {
        return false;
    }
    if is_press && !state.key_down {
        state.key_down = true;
        if let Some(last) = state.last_press {
            if is_within_threshold(now, last) {
                state.last_press = None;
                return true;
            }
        }
        state.last_press = Some(now);
    } else if !is_press {
        state.key_down = false;
    }
    false
}

/// Applies one key event, observed now, to the detector; returns whether it
/// completed a double tap (a press of the target key, with the key up before,
/// less than `DOUBLE_TAP_THRESHOLD_MS` after the pending first press).
pub fn check_double_tap(state: &mut DoubleTapState, is_press: bool, is_target: bool) -> (tapped: bool)
    ensures
        exists|now: i128|
            now >= 0 && (final(state).model(), tapped) == #[trigger] tap_step(
                old(state).model(),
                is_press,
                is_target,
                now,
            ),
        final(state).clock == old(state).clock,
        final(state).readings@.len() == old(state).readings@.len() + 1,
        final(state).readings@.drop_last() == old(state).readings@,
        final(state).readings@.last() >= 0,
        (final(state).model(), tapped) == tap_step(
            old(state).model(),
            is_press,
            is_target,
            final(state).readings@.last(),
        ),
{
    let now = state.take_reading();
    let tapped = check_double_tap_at(state, is_press, is_target, now);
    assert(final(state).readings@.drop_last() =~= old(state).readings@);
    assert((final(state).model(), tapped) == tap_step(old(state).model(), is_press, is_target, now));
    tapped
}


/// From a detector with no pending press and the key up, pressing the target
/// key, releasing it and pressing it again less than the threshold later
/// toggles on the second press, and only there.
pub proof fn lemma_quick_double_tap_toggles(t1: i128, t_release: i128, t2: i128)
    requires
        t1 <= t2,
        t2 - t1 < DOUBLE_TAP_THRESHOLD_NANOS,
    ensures
        ({
            let s0 = TapModel { last_press: None, key_down: false };
            let (s1, r1) = tap_step(s0, true, true, t1);
            let (s2, r2) = tap_step(s1, false, true, t_release);
            let (s3, r3) = tap_step(s2, true, true, t2);
            !r1 && !r2 && r3 && s3.last_press is None && s3.key_down
        }),
{
}

/// A second press that comes the threshold or more after the first does not
/// toggle; it becomes the new pending first press.
pub proof fn lemma_slow_second_press_restarts(t1: i128, t_release: i128, t2: i128)
    requires
        t2 - t1 >= DOUBLE_TAP_THRESHOLD_NANOS,
    ensures
        ({
            let s0 = TapModel { last_press: None, key_down: false };
            let (s1, r1) = tap_step(s0, true, true, t1);
            let (s2, r2) = tap_step(s1, false, true, t_release);
            let (s3, r3) = tap_step(s2, true, true, t2);
            !r1 && !r2 && !r3 && s3.last_press == Some(t2)
        }),
{
}

/// After a toggle, releasing and pressing the key again never toggles at
/// once: a third quick tap does not toggle a second time.
pub proof fn lemma_no_toggle_right_after_toggle(s: TapModel, t1: i128, t2: i128, t3: i128)
    requires
        tap_step(s, true, true, t1).1,
    ensures
        ({
            let s1 = tap_step(s, true, true, t1).0;
            let (s2, r2) = tap_step(s1, false, true, t2);
            let (s3, r3) = tap_step(s2, true, true, t3);
            !r2 && !r3 && s3.last_press == Some(t3)
        }),
{
}

/// Events of other keys neither toggle nor change the detector.
pub proof fn lemma_other_keys_ignored(s: TapModel, is_press: bool, now: i128)
    ensures
        tap_step(s, is_press, false, now) == (s, false),
{
}

/// While the target key is held, repeated presses (key auto-repeat) neither
/// toggle nor change the detector.
pub proof fn lemma_held_key_repeats_ignored(s: TapModel, now: i128)
    requires
        s.key_down,
    ensures
        tap_step(s, true, true, now) == (s, false),
{
}

/// A toggle happens only on a press of the target key while it was up, less
/// than the threshold after a pending first press; the pending press is consumed.
pub proof fn lemma_toggle_only_on_quick_second_press(s: TapModel, is_press: bool, is_target: bool, now: i128)
    requires
        tap_step(s, is_press, is_target, now).1,
    ensures
        is_press && is_target && !s.key_down,
        s.last_press is Some,
        within_threshold(now as int, s.last_press->0 as int),
        tap_step(s, is_press, is_target, now).0.last_press is None,
{
}

/// A press of the target key, with the key up, at `now` no earlier than a
/// pending first press at `last` and less than 400 ms after it, toggles.
pub proof fn lemma_press_within_400ms_toggles(s: TapModel, now: i128)
    requires
        !s.key_down,
        s.last_press is Some,
        s.last_press->0 <= now,
        now - s.last_press->0 < 400_000_000,
    ensures
        tap_step(s, true, true, now).1,
        tap_step(s, true, true, now).0.last_press is None,
{
}

/// A press of the target key, with the key up, 400 ms or more after the
/// pending first press does not toggle; it becomes the new first press.
pub proof fn lemma_press_after_400ms_does_not_toggle(s: TapModel, now: i128)
    requires
        !s.key_down,
        s.last_press is Some,
        now - s.last_press->0 >= 400_000_000,
    ensures
        !tap_step(s, true, true, now).1,
        tap_step(s, true, true, now).0.last_press == Some(now),
        tap_step(s, true, true, now).0.key_down,
{
}

/// The modifier key whose double tap starts and stops recording.
#[derive(Clone, Copy, Debug, PartialEq, Eq, Structural)]
pub enum TargetKey {
    Super,
    Ctrl,
    Shift,
}

pub open spec fn target_for_mode(mode: HotkeyMode) -> Option<TargetKey> {
    match mode {
        HotkeyMode::DoubleTapSuper => Some(TargetKey::Super),
        HotkeyMode::DoubleTapCtrl => Some(TargetKey::Ctrl),
        HotkeyMode::DoubleTapShift => Some(TargetKey::Shift),
        HotkeyMode::KeyCombination => None,
    }
}

/// The key a double-tap mode listens for; none for the key-combination mode.
pub fn target_key_for(mode: HotkeyMode) -> (t: Option<TargetKey>)
    ensures
        t == target_for_mode(mode),
{
    match mode {
        HotkeyMode::DoubleTapSuper => Some(TargetKey::Super),
        HotkeyMode::DoubleTapCtrl => Some(TargetKey::Ctrl),
        HotkeyMode::DoubleTapShift => Some(TargetKey::Shift),
        HotkeyMode::KeyCombination => None,
    }
}

/// What starting a listener does: whether the running flag is raised, and which key,
/// if any, a listening thread is started for.
#[derive(Clone, Copy, Debug, PartialEq, Eq, Structural)]
pub struct StartPlan {
    pub mark_running: bool,
    pub listen_for: Option<TargetKey>,
}

/// A listener that already runs is left alone; otherwise it is marked running
/// (also in the key-combination mode, where no thread is started).
pub open spec fn start_plan(already_running: bool, mode: HotkeyMode) -> StartPlan {
    if already_running {
        StartPlan { mark_running: false, listen_for: None }
    } else {
        StartPlan { mark_running: true, listen_for: target_for_mode(mode) }
    }
}

pub fn plan_start(already_running: bool, mode: HotkeyMode) -> (p: StartPlan)
    ensures
        p == start_plan(already_running, mode),
{
    if already_running {
        StartPlan { mark_running: false, listen_for: None }
    } else {
        StartPlan { mark_running: true, listen_for: target_key_for(mode) }
    }
}

/// A listener that already runs is never started a second time; one that
/// does not run listens for the mode's key, and for none in the
/// key-combination mode.
pub proof fn lemma_start_plan_spawns_at_most_once(mode: HotkeyMode)
    ensures
        start_plan(true, mode) == (StartPlan { mark_running: false, listen_for: None }),
        start_plan(false, mode).mark_running,
        start_plan(false, mode).listen_for is None <==> mode == HotkeyMode::KeyCombination,
{
}

/// The keys a listener tells apart; every other key is `Other`.
#[derive(Clone, Copy, Debug, PartialEq, Eq, Structural)]
pub enum Key {
    MetaLeft,
    MetaRight,
    ControlLeft,
    ControlRight,
    ShiftLeft,
    ShiftRight,
    Other,
}

/// A keyboard event as a listener reports it.
#[derive(Clone, Copy, Debug, PartialEq, Eq, Structural)]
pub enum KeyEvent {
    Press(Key),
    Release(Key),
    Other,
}

pub open spec fn key_matches(target: TargetKey, key: Key) -> bool {
    match target {
        TargetKey::Super => key == Key::MetaLeft || key == Key::MetaRight,
        TargetKey::Ctrl => key == Key::ControlLeft || key == Key::ControlRight,
        TargetKey::Shift => key == Key::ShiftLeft || key == Key::ShiftRight,
    }
}

/// Each target is exactly its own modifier's left and right keys.
pub proof fn lemma_target_keys(k: Key)
    ensures
        key_matches(TargetKey::Super, k) <==> (k == Key::MetaLeft || k == Key::MetaRight),
        key_matches(TargetKey::Ctrl, k) <==> (k == Key::ControlLeft || k == Key::ControlRight),
        key_matches(TargetKey::Shift, k) <==> (k == Key::ShiftLeft || k == Key::ShiftRight),
        k == Key::Other ==> !key_matches(TargetKey::Super, k) && !key_matches(TargetKey::Ctrl, k)
            && !key_matches(TargetKey::Shift, k),
{
}

/// Whether `key` is the left or right variant of the target modifier.
pub fn is_target_key(target: TargetKey, key: Key) -> (b: bool)
    ensures
        b == key_matches(target, key),
{
    match target {
        TargetKey::Super => matches!(key, Key::MetaLeft | Key::MetaRight),
        TargetKey::Ctrl => matches!(key, Key::ControlLeft | Key::ControlRight),
        TargetKey::Shift => matches!(key, Key::ShiftLeft | Key::ShiftRight),
    }
}

/// macOS virtual key codes of the modifier keys.
pub const KC_LEFT_SHIFT: i64 = 0x38;
pub const KC_RIGHT_SHIFT: i64 = 0x3C;
pub const KC_LEFT_CTRL: i64 = 0x3B;
pub const KC_RIGHT_CTRL: i64 = 0x3E;
pub const KC_LEFT_CMD: i64 = 0x37;
pub const KC_RIGHT_CMD: i64 = 0x36;

pub open spec fn keycode_matches(target: TargetKey, keycode: i64) -> bool {
    match target {
        TargetKey::Super => keycode == KC_LEFT_CMD || keycode == KC_RIGHT_CMD,
        TargetKey::Ctrl => keycode == KC_LEFT_CTRL || keycode == KC_RIGHT_CTRL,
        TargetKey::Shift => keycode == KC_LEFT_SHIFT || keycode == KC_RIGHT_SHIFT,
    }
}

/// On macOS each target is exactly its modifier's two key codes: Command
/// 0x37 and 0x36, Control 0x3B and 0x3E, Shift 0x38 and 0x3C.
pub proof fn lemma_target_keycodes(code: i64)
    ensures
        keycode_matches(TargetKey::Super, code) <==> (code == 0x37 || code == 0x36),
        keycode_matches(TargetKey::Ctrl, code) <==> (code == 0x3B || code == 0x3E),
        keycode_matches(TargetKey::Shift, code) <==> (code == 0x38 || code == 0x3C),
{
}

/// Whether a macOS key code is the left or right variant of the target modifier.
pub fn is_target_keycode(target: TargetKey, keycode: i64) -> (b: bool)
    ensures
        b == keycode_matches(target, keycode),
{
    match target {
        TargetKey::Super => keycode == KC_LEFT_CMD || keycode == KC_RIGHT_CMD,
        TargetKey::Ctrl => keycode == KC_LEFT_CTRL || keycode == KC_RIGHT_CTRL,
        TargetKey::Shift => keycode == KC_LEFT_SHIFT || keycode == KC_RIGHT_SHIFT,
    }
}

/// Handles one keyboard event of a listener for `target`; returns whether
/// recording should be toggled. A stopped listener ignores every event.
pub fn handle_key_event(state: &mut DoubleTapState, running: bool, target: TargetKey, event: KeyEvent) -> (toggle: bool)
    ensures
        final(state).clock == old(state).clock,
        !running || event is Other ==> !toggle && final(state).model() == old(state).model(),
        running ==> match event {
            KeyEvent::Press(k) => exists|now: i128|
                now >= 0 && (final(state).model(), toggle) == #[trigger] tap_step(
                    old(state).model(),
                    true,
                    key_matches(target, k),
                    now,
                ),
            KeyEvent::Release(k) => exists|now: i128|
                now >= 0 && (final(state).model(), toggle) == #[trigger] tap_step(
                    old(state).model(),
                    false,
                    key_matches(target, k),
                    now,
                ),
            KeyEvent::Other => true,
        },
        !running || event is Other ==> final(state).readings == old(state).readings,
        running && !(event is Other) ==> {
            &&& final(state).readings@.len() == old(state).readings@.len() + 1
            &&& final(state).readings@.drop_last() == old(state).readings@
            &&& (final(state).model(), toggle) == tap_step(
                old(state).model(),
                event is Press,
                key_matches(
                    target,
                    match event {
                        KeyEvent::Press(k) => k,
                        KeyEvent::Release(k) => k,
                        KeyEvent::Other => Key::Other,
                    },
                ),
                final(state).readings@.last(),
            )
        },
{
    if !running {
        return false;
    }
    let (is_press, key) = match event {
        KeyEvent::Press(k) => (true, k),
        KeyEvent::Release(k) => (false, k),
        KeyEvent::Other => {
            return false;
        },
    };
    let is_target = is_target_key(target, key);
    check_double_tap(state, is_press, is_target)
}

/// Handles one modifier-change event of a macOS listener for `target`:
/// `keycode` is the key that changed and `flag_set` whether the target's
/// modifier flag is now set. Returns whether recording should be toggled.
pub fn handle_modifier_change(
    state: &mut DoubleTapState,
    running: bool,
    target: TargetKey,
    keycode: i64,
    flag_set: bool,
) -> (toggle: bool)
    ensures
        final(state).clock == old(state).clock,
        !running || !keycode_matches(target, keycode) ==> !toggle && final(state).model()
            == old(state).model(),
        running && keycode_matches(target, keycode) ==> exists|now: i128|
            now >= 0 && (final(state).model(), toggle) == #[trigger] tap_step(
                old(state).model(),
                flag_set,
                true,
                now,
            ),
        !running || !keycode_matches(target, keycode) ==> final(state).readings
            == old(state).readings,
        running && keycode_matches(target, keycode) ==> {
            &&& final(state).readings@.len() == old(state).readings@.len() + 1
            &&& final(state).readings@.drop_last() == old(state).readings@
            &&& (final(state).model(), toggle) == tap_step(
                old(state).model(),
                flag_set,
                true,
                final(state).readings@.last(),
            )
        },
{
    if !running {
        return false;
    }
    if !is_target_keycode(target, keycode) {
        return false;
    }
    check_double_tap(state, flag_set, true)
}

/// The double-tap listener's handle: a flag, shared with the listening
/// thread, that tells whether the listener should react to events.
pub struct DoubleTapListener {
    running: Arc<AtomicBool>,
}

/// `<Arc<AtomicBool> as Clone>::clone`: another pointer to the same flag.
#[verifier::external_body]
fn share_flag(flag: &Arc<AtomicBool>) -> (r: Arc<AtomicBool>)
    ensures
        r == *flag,
{
    flag.clone()
}

impl DoubleTapListener {
    /// The flag this listener shares with its listening thread.
    pub closed spec fn flag(&self) -> Arc<AtomicBool> {
        self.running
    }

    /// A listener that has not been started.
    pub fn new() -> (l: Self) {
        DoubleTapListener { running: Arc::new(AtomicBool::new(false)) }
    }

    /// Asks the listening thread to ignore further events.
    pub fn stop(&self) {
        self.running.store(false, Ordering::SeqCst);
    }

    /// Whether the listener is marked running; the flag is shared with another
    /// thread, so nothing is known of the value read.
    pub fn is_running(&self) -> (b: bool) {
        self.running.load(Ordering::SeqCst)
    }

    /// The flag that a listening thread reads: this listener's own.
    pub fn running_flag(&self) -> (f: Arc<AtomicBool>)
        ensures
            f == self.flag(),
    {
        share_flag(&self.running)
    }

    /// Marks the listener running for `mode` and returns the key that a
    /// listening thread should then be started for: none when the listener
    /// already ran, and none in the key-combination mode.
    pub fn start(&self, mode: HotkeyMode) -> (listen_for: Option<TargetKey>)
        ensures
            listen_for is Some ==> listen_for == target_for_mode(mode),
            mode == HotkeyMode::KeyCombination ==> listen_for is None,
    {
        let already = self.running.load(Ordering::SeqCst);
        let plan = plan_start(already, mode);
        if plan.mark_running {
            self.running.store(true, Ordering::SeqCst);
        }
        plan.listen_for
    }
}

} // verus!
