//! How the widget finds the taskbar, stays attached to it, and reacts to the
//! tray and the keyboard.
//!
//! Points in time are nanoseconds since some moment at which the program
//! already ran.
use vstd::prelude::*;

use crate::layout::{inside, layout_fits, point_in_rect, Point, Rect};
use crate::position::{placement, position_at_taskbar, taskbar_fits, Placement};
use crate::state::{state_view, AppState, StateView, Timer, TimerCommand};

verus! {

/// The shortest time between two refreshes by key, in milliseconds.
pub const REFRESH_KEY_DEBOUNCE_MS: u64 = 500;

/// How long the tray is not followed after its icon was changed, in
/// milliseconds.
pub const TRAY_ICON_UPDATE_REPOSITION_SUPPRESS_MS: u64 = 750;

/// The time that has to pass before the tray is followed again, in
/// milliseconds.
pub const REPOSITION_PAUSE_MS: u64 = 500;

/// How often to look for a taskbar that is missing, in milliseconds.
pub const TASKBAR_RETRY_MS: u32 = 2_000;

const NANOS_PER_MILLI: u128 = 1_000_000;

// ---------------------------------------------------------------------------
// The refresh key
// ---------------------------------------------------------------------------

/// The whole milliseconds from one point in time to another, none if the other
/// is earlier.
pub open spec fn millis_between(from: int, to: int) -> int {
    if from <= to {
        (to - from) / 1_000_000
    } else {
        0
    }
}

fn elapsed_millis(from: u128, to: u128) -> (r: u128)
    ensures
        r == millis_between(from as int, to as int),
{
    if from <= to {
        (to - from) / NANOS_PER_MILLI
    } else {
        0
    }
}

/// Whether the refresh key counts at the time `now` if it last counted at
/// `last`.
pub open spec fn key_allowed(last: Option<u128>, now: u128) -> bool {
    match last {
        Some(previous) => millis_between(previous as int, now as int) >= REFRESH_KEY_DEBOUNCE_MS,
        None => true,
    }
}

/// Decides whether the refresh key counts, and remembers when it did.
pub fn refresh_key_allowed(last: &mut Option<u128>, now: u128) -> (r: bool)
    ensures
        r == key_allowed(*old(last), now),
        *final(last) == (if r {
            Some(now)
        } else {
            *old(last)
        }),
{
    if let Some(previous) = *last {
        if elapsed_millis(previous, now) < REFRESH_KEY_DEBOUNCE_MS as u128 {
            return false;
        }
    }
    *last = Some(now);
    true
}

/// After a press of the key that counted, the next one counts if and only if it
/// comes half a second later or more.
pub proof fn law_refreshes_are_apart(first: u128, second: u128)
    ensures
        key_allowed(Some(first), second) <==> second >= first + 500_000_000,
{
}

/// The window that a press of the refresh key is for: the widget, if the mouse
/// is over it while it is visible or over its icon in the tray.
pub open spec fn hovered(
    s: Option<StateView>,
    cursor: Option<Point>,
    widget: Option<Rect>,
    over_tray_icon: bool,
) -> Option<isize> {
    match (s, cursor) {
        (Some(s), Some(pt)) => if over_tray_icon || (s.widget_visible && widget is Some && inside(
            pt,
            widget->0,
        )) {
            Some(s.hwnd)
        } else {
            None
        },
        _ => None,
    }
}

/// Finds the window that a press of the refresh key is for. `widget` is the
/// rectangle of the widget on the screen.
pub fn hovered_refresh_hwnd(
    state: Option<&AppState>,
    cursor: Option<Point>,
    widget: Option<Rect>,
    over_tray_icon: bool,
) -> (r: Option<isize>)
    ensures
        r == hovered(state_view(state), cursor, widget, over_tray_icon),
{
    match (state, cursor) {
        (Some(s), Some(pt)) => {
            if s.widget_visible {
                if let Some(rect) = widget {
                    if point_in_rect(pt, rect) {
                        return Some(s.hwnd);
                    }
                }
            }
            if over_tray_icon {
                return Some(s.hwnd);
            }
            None
        },
        _ => None,
    }
}

/// The code with which a keyboard hook is told of an event.
pub const HC_ACTION: i32 = 0;

/// The message of a key that goes down.
pub const WM_KEYDOWN: u32 = 0x0100;

/// The number of the key `R`.
pub const VK_R: u32 = 0x52;

/// Whether a keyboard hook is told of a key that goes down.
pub fn is_key_press(code: i32, message: u32) -> (r: bool)
    ensures
        r == (code == HC_ACTION && message == WM_KEYDOWN),
        r <==> code == 0 && message == 0x0100,
{
    code == HC_ACTION && message == WM_KEYDOWN
}

/// Decides what a key that goes down leads to: a refresh of the window under
/// the mouse, if it is the refresh key and it counts.
pub fn key_pressed(key: u32, hovered: Option<isize>, last: &mut Option<u128>, now: u128) -> (r:
    Option<isize>)
    ensures
        r == (if key == VK_R && key_allowed(*old(last), now) {
            hovered
        } else {
            None
        }),
        r is Some ==> key == 0x52 && hovered is Some && r->0 == hovered->0,
        key == 0x52 && hovered is Some && *old(last) is None ==> r is Some,
        *final(last) == (if r is Some {
            Some(now)
        } else {
            *old(last)
        }),
{
    if key == VK_R {
        if let Some(hwnd) = hovered {
            if refresh_key_allowed(last, now) {
                return Some(hwnd);
            }
        }
    }
    None
}

// ---------------------------------------------------------------------------
// Following the tray
// ---------------------------------------------------------------------------

/// When the tray was last followed, and until when it is not.
#[derive(Clone, Copy, Debug, PartialEq, Eq, Structural)]
pub struct TrayWatch {
    pub suppressed_until: Option<u128>,
    pub last_reposition: Option<u128>,
}

/// Whether the tray is not followed at the time `now`.
pub open spec fn suppressed(watch: TrayWatch, now: u128) -> bool {
    watch.suppressed_until matches Some(deadline) && now < deadline
}

/// Stops following the tray for so many milliseconds from `now` on.
pub fn suppress_tray_reposition_for(watch: &mut TrayWatch, now: u128, millis: u64)
    requires
        now + millis * 1_000_000 <= u128::MAX,
    ensures
        *final(watch) == (TrayWatch {
            suppressed_until: Some((now + millis * 1_000_000) as u128),
            ..*old(watch)
        }),
{
    watch.suppressed_until = Some(now + millis as u128 * NANOS_PER_MILLI);
}

/// Says whether the tray is not followed at the time `now`, and forgets a
/// deadline that has passed.
pub fn tray_reposition_is_suppressed(watch: &mut TrayWatch, now: u128) -> (r: bool)
    ensures
        r == suppressed(*old(watch), now),
        *final(watch) == (if r {
            *old(watch)
        } else {
            TrayWatch { suppressed_until: None, ..*old(watch) }
        }),
{
    match watch.suppressed_until {
        Some(deadline) => if now < deadline {
            true
        } else {
            watch.suppressed_until = None;
            false
        },
        None => false,
    }
}

/// Whether the widget follows a movement of the tray at the time `now`.
pub open spec fn follows_tray(watch: TrayWatch, now: u128) -> bool {
    &&& !suppressed(watch, now)
    &&& watch.last_reposition matches Some(last) ==> millis_between(last as int, now as int)
        > REPOSITION_PAUSE_MS
}

/// Whether a window is the tray that the widget stands at.
pub open spec fn is_tray(s: Option<StateView>, hwnd: isize) -> bool {
    s matches Some(s) && s.tray_notify_hwnd == Some(hwnd)
}

/// What is remembered after a window has moved at the time `now`.
pub open spec fn after_movement(
    s: Option<StateView>,
    hwnd: isize,
    watch: TrayWatch,
    now: u128,
) -> TrayWatch {
    if !is_tray(s, hwnd) || suppressed(watch, now) {
        watch
    } else if follows_tray(watch, now) {
        TrayWatch { suppressed_until: None, last_reposition: Some(now) }
    } else {
        TrayWatch { suppressed_until: None, ..watch }
    }
}

/// Decides whether the widget has to be placed anew because a window has moved.
pub fn on_tray_location_changed(
    state: Option<&AppState>,
    hwnd: isize,
    watch: &mut TrayWatch,
    now: u128,
) -> (r: bool)
    ensures
        r == (is_tray(state_view(state), hwnd) && follows_tray(*old(watch), now)),
        *final(watch) == after_movement(state_view(state), hwnd, *old(watch), now),
{
    let concerned = match state {
        Some(s) => match s.tray_notify_hwnd {
            Some(tray) => tray == hwnd,
            None => false,
        },
        None => false,
    };
    if !concerned {
        return false;
    }
    if tray_reposition_is_suppressed(watch, now) {
        return false;
    }
    if let Some(last) = watch.last_reposition {
        if elapsed_millis(last, now) <= REPOSITION_PAUSE_MS as u128 {
            return false;
        }
    }
    watch.last_reposition = Some(now);
    true
}

/// A change of the tray icon is not taken for a movement of the tray: until the
/// time given has passed, no movement is followed.
pub proof fn law_suppression_lasts(watch: TrayWatch, from: u128, millis: u64, now: u128)
    requires
        from + millis * 1_000_000 <= u128::MAX,
    ensures
        ({
            let after = TrayWatch {
                suppressed_until: Some((from + millis * 1_000_000) as u128),
                ..watch
            };
            &&& now < from + millis * 1_000_000 ==> !follows_tray(after, now)
            &&& now >= from + millis * 1_000_000 ==> (follows_tray(after, now) <==> follows_tray(
                TrayWatch { suppressed_until: None, ..watch },
                now,
            ))
        }),
{
}

/// Movements that are followed are more than half a second apart.
pub proof fn law_movements_are_apart(
    s: Option<StateView>,
    hwnd: isize,
    watch: TrayWatch,
    first: u128,
    second: u128,
)
    requires
        is_tray(s, hwnd),
        follows_tray(watch, first),
        follows_tray(after_movement(s, hwnd, watch, first), second),
    ensures
        second > first + 500_000_000,
{
}

// ---------------------------------------------------------------------------
// Attachment
// ---------------------------------------------------------------------------

/// Why the taskbar is being looked for.
#[derive(Clone, Copy, Debug, PartialEq, Eq, Structural)]
pub enum Goal {
    /// The program starts.
    First,
    /// The known taskbar is gone.
    Recover,
    /// The taskbar is known, but the widget is not embedded in it.
    Join,
}

/// What is being waited for.
#[derive(Clone, Copy, Debug, PartialEq, Eq, Structural)]
pub enum AttachPhase {
    /// Whether the known taskbar still exists.
    CheckTaskbar(isize),
    /// Whether that taskbar is the parent of the widget.
    CheckParent(isize),
    /// Whether the known tray on that taskbar still exists.
    CheckTray(isize, isize),
    /// The tray on that taskbar.
    FindTray(isize),
    /// A hook on that tray.
    HookTray(isize),
    /// A taskbar.
    FindTaskbar,
    /// Whether the taskbar that was found exists.
    CheckFound(isize),
    /// The tray on the taskbar that was found.
    FindNewTray(isize),
    /// A hook on the tray of the taskbar that was found.
    HookNewTray(isize),
    /// Nothing any more.
    Done,
}

/// An attempt to attach the widget to the taskbar, with what was known when it
/// began.
#[derive(Clone, Copy, Debug, PartialEq, Eq, Structural)]
pub struct Attachment {
    pub hwnd: isize,
    pub taskbar: Option<isize>,
    pub tray: Option<isize>,
    pub embedded: bool,
    pub visible: bool,
    pub goal: Goal,
    pub phase: AttachPhase,
}

/// What is asked of the desktop.
#[derive(Clone, Copy, Debug, PartialEq, Eq, Structural)]
pub enum Query {
    /// The window itself, if it exists.
    IsWindow(isize),
    /// The parent of a window.
    Parent(isize),
    /// The taskbar.
    FindTaskbar,
    /// The tray on a taskbar.
    FindTray(isize),
    /// A new hook that tells of movements of a tray.
    HookTray(isize),
}

/// What is done to the desktop.
#[derive(Clone, Copy, Debug, PartialEq, Eq, Structural)]
pub enum AttachEffect {
    /// Make a window a child of a taskbar.
    Embed(isize, isize),
    /// Remove a hook.
    Unhook(isize),
    /// Show a window without activating it.
    Show(isize),
    Timer(TimerCommand),
}

/// What an attempt asks of the desktop next, if it is not over.
pub open spec fn query_of(a: Attachment) -> Option<Query> {
    match a.phase {
        AttachPhase::CheckTaskbar(taskbar) => Some(Query::IsWindow(taskbar)),
        AttachPhase::CheckParent(_) => Some(Query::Parent(a.hwnd)),
        AttachPhase::CheckTray(_, tray) => Some(Query::IsWindow(tray)),
        AttachPhase::FindTray(taskbar) => Some(Query::FindTray(taskbar)),
        AttachPhase::HookTray(tray) => Some(Query::HookTray(tray)),
        AttachPhase::FindTaskbar => Some(Query::FindTaskbar),
        AttachPhase::CheckFound(taskbar) => Some(Query::IsWindow(taskbar)),
        AttachPhase::FindNewTray(taskbar) => Some(Query::FindTray(taskbar)),
        AttachPhase::HookNewTray(tray) => Some(Query::HookTray(tray)),
        AttachPhase::Done => None,
    }
}

/// What an attempt asks of the desktop next, if it is not over.
pub fn attachment_query(a: &Attachment) -> (r: Option<Query>)
    ensures
        r == query_of(*a),
{
    match a.phase {
        AttachPhase::CheckTaskbar(taskbar) => Some(Query::IsWindow(taskbar)),
        AttachPhase::CheckParent(_) => Some(Query::Parent(a.hwnd)),
        AttachPhase::CheckTray(_, tray) => Some(Query::IsWindow(tray)),
        AttachPhase::FindTray(taskbar) => Some(Query::FindTray(taskbar)),
        AttachPhase::HookTray(tray) => Some(Query::HookTray(tray)),
        AttachPhase::FindTaskbar => Some(Query::FindTaskbar),
        AttachPhase::CheckFound(taskbar) => Some(Query::IsWindow(taskbar)),
        AttachPhase::FindNewTray(taskbar) => Some(Query::FindTray(taskbar)),
        AttachPhase::HookNewTray(tray) => Some(Query::HookTray(tray)),
        AttachPhase::Done => None,
    }
}

/// An attempt that begins in the given state.
pub open spec fn begun(s: StateView, goal: Goal, phase: AttachPhase) -> Attachment {
    Attachment {
        hwnd: s.hwnd,
        taskbar: s.taskbar_hwnd,
        tray: s.tray_notify_hwnd,
        embedded: s.embedded,
        visible: s.widget_visible,
        goal,
        phase,
    }
}

/// Begins to attach the widget to the taskbar when the program starts.
pub fn attach_to_taskbar(state: &AppState) -> (r: Attachment)
    ensures
        r == begun(state@, Goal::First, AttachPhase::FindTaskbar),
{
    Attachment {
        hwnd: state.hwnd,
        taskbar: state.taskbar_hwnd,
        tray: state.tray_notify_hwnd,
        embedded: state.embedded,
        visible: state.widget_visible,
        goal: Goal::First,
        phase: AttachPhase::FindTaskbar,
    }
}

/// The first phase of an attempt to keep the widget attached.
pub open spec fn first_phase(taskbar: Option<isize>) -> AttachPhase {
    match taskbar {
        Some(taskbar) => AttachPhase::CheckTaskbar(taskbar),
        None => AttachPhase::FindTaskbar,
    }
}

/// Begins to make sure that the widget is attached to the taskbar, which may
/// have been replaced by another one.
pub fn ensure_taskbar_attachment(state: &AppState) -> (r: Attachment)
    ensures
        r == begun(state@, Goal::Recover, first_phase(state@.taskbar_hwnd)),
{
    let phase = match state.taskbar_hwnd {
        Some(taskbar) => AttachPhase::CheckTaskbar(taskbar),
        None => AttachPhase::FindTaskbar,
    };
    Attachment {
        hwnd: state.hwnd,
        taskbar: state.taskbar_hwnd,
        tray: state.tray_notify_hwnd,
        embedded: state.embedded,
        visible: state.widget_visible,
        goal: Goal::Recover,
        phase,
    }
}

/// What a step of an attempt leads to.
pub struct AttachStep {
    pub attachment: Attachment,
    pub state: StateView,
    pub effects: Seq<AttachEffect>,
}

/// A window is shown if the user wants to see it.
pub open spec fn shown(hwnd: isize, visible: bool) -> Seq<AttachEffect> {
    if visible {
        seq![AttachEffect::Show(hwnd)]
    } else {
        Seq::empty()
    }
}

/// A hook is removed if there is one.
pub open spec fn unhooked(hook: Option<isize>) -> Seq<AttachEffect> {
    match hook {
        Some(hook) => seq![AttachEffect::Unhook(hook)],
        None => Seq::empty(),
    }
}

/// What follows when the widget is attached: it is shown, and the taskbar need
/// not be looked for any more. When the program starts both come later.
pub open spec fn attached_effects(a: Attachment) -> Seq<AttachEffect> {
    if a.goal == Goal::First {
        Seq::empty()
    } else {
        shown(a.hwnd, a.visible).push(AttachEffect::Timer(TimerCommand::Stop(Timer::TaskbarRetry)))
    }
}

/// The phase in which the tray on a known taskbar is looked after.
pub open spec fn tray_phase(a: Attachment, taskbar: isize) -> AttachPhase {
    match a.tray {
        Some(tray) => AttachPhase::CheckTray(taskbar, tray),
        None => AttachPhase::FindTray(taskbar),
    }
}

/// The state of a widget without a taskbar.
pub open spec fn detached(s: StateView) -> StateView {
    StateView { taskbar_hwnd: None, tray_notify_hwnd: None, embedded: false, ..s }
}

/// What follows when no taskbar was found. Where one is known, at least its
/// tray is looked after; where it is gone, it will be looked for again.
pub open spec fn not_found(a: Attachment, s: StateView) -> AttachStep {
    if a.goal == Goal::Join && a.taskbar is Some {
        AttachStep {
            attachment: Attachment { phase: tray_phase(a, a.taskbar->0), ..a },
            state: s,
            effects: Seq::empty(),
        }
    } else if a.goal == Goal::First {
        AttachStep {
            attachment: Attachment { phase: AttachPhase::Done, ..a },
            state: s,
            effects: Seq::empty(),
        }
    } else {
        AttachStep {
            attachment: Attachment { phase: AttachPhase::Done, ..a },
            state: detached(s),
            effects: seq![
                AttachEffect::Timer(TimerCommand::Start(Timer::TaskbarRetry, TASKBAR_RETRY_MS)),
            ],
        }
    }
}

/// What the answer of the desktop leads to.
pub open spec fn attach_next(a: Attachment, answer: Option<isize>, s: StateView) -> AttachStep {
    match a.phase {
        AttachPhase::CheckTaskbar(taskbar) => AttachStep {
            attachment: if answer is None {
                Attachment { goal: Goal::Recover, phase: AttachPhase::FindTaskbar, ..a }
            } else if a.embedded {
                Attachment { phase: AttachPhase::CheckParent(taskbar), ..a }
            } else {
                Attachment { goal: Goal::Join, phase: AttachPhase::FindTaskbar, ..a }
            },
            state: s,
            effects: Seq::empty(),
        },
        AttachPhase::CheckParent(taskbar) => AttachStep {
            attachment: Attachment { phase: tray_phase(a, taskbar), ..a },
            state: if answer == Some(taskbar) {
                s
            } else {
                StateView { embedded: true, ..s }
            },
            effects: if answer == Some(taskbar) {
                Seq::empty()
            } else {
                seq![AttachEffect::Embed(a.hwnd, taskbar)] + shown(a.hwnd, a.visible)
            },
        },
        AttachPhase::CheckTray(taskbar, _) => AttachStep {
            attachment: Attachment {
                phase: if answer is Some {
                    AttachPhase::Done
                } else {
                    AttachPhase::FindTray(taskbar)
                },
                ..a
            },
            state: s,
            effects: Seq::empty(),
        },
        AttachPhase::FindTray(_) => AttachStep {
            attachment: Attachment {
                phase: match answer {
                    Some(tray) => AttachPhase::HookTray(tray),
                    None => AttachPhase::Done,
                },
                ..a
            },
            state: StateView { tray_notify_hwnd: answer, win_event_hook: None, ..s },
            effects: unhooked(s.win_event_hook),
        },
        AttachPhase::HookTray(_) => AttachStep {
            attachment: Attachment { phase: AttachPhase::Done, ..a },
            state: StateView { win_event_hook: answer, ..s },
            effects: Seq::empty(),
        },
        AttachPhase::FindTaskbar => match answer {
            Some(taskbar) => AttachStep {
                attachment: Attachment { phase: AttachPhase::CheckFound(taskbar), ..a },
                state: s,
                effects: Seq::empty(),
            },
            None => not_found(a, s),
        },
        AttachPhase::CheckFound(taskbar) => match answer {
            Some(_) => AttachStep {
                attachment: Attachment { phase: AttachPhase::FindNewTray(taskbar), ..a },
                state: s,
                effects: seq![AttachEffect::Embed(a.hwnd, taskbar)],
            },
            None => not_found(a, s),
        },
        AttachPhase::FindNewTray(taskbar) => AttachStep {
            attachment: Attachment {
                phase: match answer {
                    Some(tray) => AttachPhase::HookNewTray(tray),
                    None => AttachPhase::Done,
                },
                ..a
            },
            state: StateView {
                taskbar_hwnd: Some(taskbar),
                tray_notify_hwnd: answer,
                embedded: true,
                win_event_hook: None,
                ..s
            },
            effects: match answer {
                Some(_) => unhooked(s.win_event_hook),
                None => unhooked(s.win_event_hook) + attached_effects(a),
            },
        },
        AttachPhase::HookNewTray(_) => AttachStep {
            attachment: Attachment { phase: AttachPhase::Done, ..a },
            state: StateView { win_event_hook: answer, ..s },
            effects: attached_effects(a),
        },
        AttachPhase::Done => AttachStep { attachment: a, state: s, effects: Seq::empty() },
    }
}

fn push_shown(effects: &mut Vec<AttachEffect>, hwnd: isize, visible: bool)
    ensures
        final(effects)@ == old(effects)@ + shown(hwnd, visible),
{
    if visible {
        effects.push(AttachEffect::Show(hwnd));
    }
    assert(effects@ =~= old(effects)@ + shown(hwnd, visible));
}

fn push_unhooked(effects: &mut Vec<AttachEffect>, hook: Option<isize>)
    ensures
        final(effects)@ == old(effects)@ + unhooked(hook),
{
    if let Some(hook) = hook {
        effects.push(AttachEffect::Unhook(hook));
    }
    assert(effects@ =~= old(effects)@ + unhooked(hook));
}

fn push_attached(effects: &mut Vec<AttachEffect>, a: &Attachment)
    ensures
        final(effects)@ == old(effects)@ + attached_effects(*a),
{
    if !(a.goal == Goal::First) {
        push_shown(effects, a.hwnd, a.visible);
        effects.push(AttachEffect::Timer(TimerCommand::Stop(Timer::TaskbarRetry)));
    }
    assert(effects@ =~= old(effects)@ + attached_effects(*a));
}

fn look_after_tray(a: &Attachment, taskbar: isize) -> (r: AttachPhase)
    ensures
        r == tray_phase(*a, taskbar),
{
    match a.tray {
        Some(tray) => AttachPhase::CheckTray(taskbar, tray),
        None => AttachPhase::FindTray(taskbar),
    }
}

fn give_up(a: &mut Attachment, state: &mut AppState) -> (effects: Vec<AttachEffect>)
    ensures
        *final(a) == not_found(*old(a), old(state)@).attachment,
        final(state)@ == not_found(*old(a), old(state)@).state,
        effects@ == not_found(*old(a), old(state)@).effects,
{
    let mut effects: Vec<AttachEffect> = Vec::new();
    if a.goal == Goal::Join {
        if let Some(taskbar) = a.taskbar {
            let phase = look_after_tray(a, taskbar);
            a.phase = phase;
            assert(effects@ =~= Seq::<AttachEffect>::empty());
            return effects;
        }
    }
    a.phase = AttachPhase::Done;
    if !(a.goal == Goal::First) {
        state.taskbar_hwnd = None;
        state.tray_notify_hwnd = None;
        state.embedded = false;
        effects.push(
            AttachEffect::Timer(TimerCommand::Start(Timer::TaskbarRetry, TASKBAR_RETRY_MS)),
        );
    }
    assert(effects@ =~= not_found(*old(a), old(state)@).effects);
    effects
}

fn known_step(a: &mut Attachment, answer: Option<isize>, state: &mut AppState) -> (effects: Vec<
    AttachEffect,
>)
    requires
        old(a).phase is CheckTaskbar || old(a).phase is CheckParent || old(a).phase is CheckTray,
    ensures
        *final(a) == attach_next(*old(a), answer, old(state)@).attachment,
        final(state)@ == attach_next(*old(a), answer, old(state)@).state,
        effects@ == attach_next(*old(a), answer, old(state)@).effects,
{
    let mut effects: Vec<AttachEffect> = Vec::new();
    match a.phase {
        AttachPhase::CheckTaskbar(taskbar) => {
            if answer.is_none() {
                a.goal = Goal::Recover;
                a.phase = AttachPhase::FindTaskbar;
            } else if a.embedded {
                a.phase = AttachPhase::CheckParent(taskbar);
            } else {
                a.goal = Goal::Join;
                a.phase = AttachPhase::FindTaskbar;
            }
        },
        AttachPhase::CheckParent(taskbar) => {
            let kept = match answer {
                Some(parent) => parent == taskbar,
                None => false,
            };
            if !kept {
                effects.push(AttachEffect::Embed(a.hwnd, taskbar));
                push_shown(&mut effects, a.hwnd, a.visible);
                state.embedded = true;
            }
            let phase = look_after_tray(a, taskbar);
            a.phase = phase;
        },
        AttachPhase::CheckTray(taskbar, _) => {
            a.phase = if answer.is_some() {
                AttachPhase::Done
            } else {
                AttachPhase::FindTray(taskbar)
            };
        },
        _ => {},
    }
    assert(effects@ =~= attach_next(*old(a), answer, old(state)@).effects);
    effects
}

fn tray_step(a: &mut Attachment, answer: Option<isize>, state: &mut AppState) -> (effects: Vec<
    AttachEffect,
>)
    requires
        old(a).phase is FindTray || old(a).phase is HookTray || old(a).phase is Done,
    ensures
        *final(a) == attach_next(*old(a), answer, old(state)@).attachment,
        final(state)@ == attach_next(*old(a), answer, old(state)@).state,
        effects@ == attach_next(*old(a), answer, old(state)@).effects,
{
    let mut effects: Vec<AttachEffect> = Vec::new();
    match a.phase {
        AttachPhase::FindTray(_) => {
            push_unhooked(&mut effects, state.win_event_hook);
            state.win_event_hook = None;
            state.tray_notify_hwnd = answer;
            a.phase = match answer {
                Some(tray) => AttachPhase::HookTray(tray),
                None => AttachPhase::Done,
            };
        },
        AttachPhase::HookTray(_) => {
            state.win_event_hook = answer;
            a.phase = AttachPhase::Done;
        },
        _ => {},
    }
    assert(effects@ =~= attach_next(*old(a), answer, old(state)@).effects);
    effects
}

fn found_step(a: &mut Attachment, answer: Option<isize>, state: &mut AppState) -> (effects: Vec<
    AttachEffect,
>)
    requires
        old(a).phase is FindTaskbar || old(a).phase is CheckFound,
    ensures
        *final(a) == attach_next(*old(a), answer, old(state)@).attachment,
        final(state)@ == attach_next(*old(a), answer, old(state)@).state,
        effects@ == attach_next(*old(a), answer, old(state)@).effects,
{
    match answer {
        None => give_up(a, state),
        Some(window) => {
            let mut effects: Vec<AttachEffect> = Vec::new();
            match a.phase {
                AttachPhase::CheckFound(taskbar) => {
                    effects.push(AttachEffect::Embed(a.hwnd, taskbar));
                    a.phase = AttachPhase::FindNewTray(taskbar);
                },
                _ => {
                    a.phase = AttachPhase::CheckFound(window);
                },
            }
            assert(effects@ =~= attach_next(*old(a), answer, old(state)@).effects);
            effects
        },
    }
}

fn new_tray_step(a: &mut Attachment, answer: Option<isize>, state: &mut AppState) -> (effects: Vec<
    AttachEffect,
>)
    requires
        old(a).phase is FindNewTray || old(a).phase is HookNewTray,
    ensures
        *final(a) == attach_next(*old(a), answer, old(state)@).attachment,
        final(state)@ == attach_next(*old(a), answer, old(state)@).state,
        effects@ == attach_next(*old(a), answer, old(state)@).effects,
{
    let mut effects: Vec<AttachEffect> = Vec::new();
    match a.phase {
        AttachPhase::FindNewTray(taskbar) => {
            push_unhooked(&mut effects, state.win_event_hook);
            state.win_event_hook = None;
            state.taskbar_hwnd = Some(taskbar);
            state.tray_notify_hwnd = answer;
            state.embedded = true;
            match answer {
                Some(tray) => {
                    a.phase = AttachPhase::HookNewTray(tray);
                },
                None => {
                    push_attached(&mut effects, a);
                    a.phase = AttachPhase::Done;
                },
            }
        },
        _ => {
            state.win_event_hook = answer;
            push_attached(&mut effects, a);
            a.phase = AttachPhase::Done;
        },
    }
    assert(effects@ =~= attach_next(*old(a), answer, old(state)@).effects);
    effects
}

/// Takes in the answer of the desktop, and says what is to be done to it.
pub fn attach_step(a: &mut Attachment, answer: Option<isize>, state: &mut AppState) -> (effects: Vec<
    AttachEffect,
>)
    ensures
        *final(a) == attach_next(*old(a), answer, old(state)@).attachment,
        final(state)@ == attach_next(*old(a), answer, old(state)@).state,
        effects@ == attach_next(*old(a), answer, old(state)@).effects,
{
    match a.phase {
        AttachPhase::CheckTaskbar(_)
        | AttachPhase::CheckParent(_)
        | AttachPhase::CheckTray(_, _) => known_step(a, answer, state),
        AttachPhase::FindTray(_) | AttachPhase::HookTray(_) | AttachPhase::Done => tray_step(
            a,
            answer,
            state,
        ),
        AttachPhase::FindTaskbar | AttachPhase::CheckFound(_) => found_step(a, answer, state),
        AttachPhase::FindNewTray(_) | AttachPhase::HookNewTray(_) => new_tray_step(a, answer, state),
    }
}

// ---------------------------------------------------------------------------
// Whole attempts
// ---------------------------------------------------------------------------

/// A desktop: the taskbar that it shows, the windows that exist, the parent of
/// the widget, the tray on each taskbar, and the hook that each tray gets.
pub struct Desktop {
    pub taskbar: Option<isize>,
    pub windows: Set<isize>,
    pub parent: Option<isize>,
    pub trays: Map<isize, isize>,
    pub hooks: Map<isize, isize>,
}

/// The entry of a map, if there is one.
pub open spec fn entry(m: Map<isize, isize>, key: isize) -> Option<isize> {
    if m.dom().contains(key) {
        Some(m[key])
    } else {
        None
    }
}

/// What a desktop answers.
pub open spec fn answer_of(d: Desktop, query: Query) -> Option<isize> {
    match query {
        Query::IsWindow(hwnd) => if d.windows.contains(hwnd) {
            Some(hwnd)
        } else {
            None
        },
        Query::Parent(_) => d.parent,
        Query::FindTaskbar => d.taskbar,
        Query::FindTray(taskbar) => entry(d.trays, taskbar),
        Query::HookTray(tray) => entry(d.hooks, tray),
    }
}

/// How many answers an attempt needs at most.
pub open spec fn answers_left(a: Attachment) -> nat {
    match a.phase {
        AttachPhase::CheckTaskbar(_) => 9,
        AttachPhase::FindTaskbar => 6,
        AttachPhase::CheckFound(_) => 5,
        AttachPhase::CheckParent(_) => 4,
        AttachPhase::CheckTray(_, _) => 3,
        AttachPhase::FindTray(_) => 2,
        AttachPhase::HookTray(_) => 1,
        AttachPhase::FindNewTray(_) => 2,
        AttachPhase::HookNewTray(_) => 1,
        AttachPhase::Done => 0,
    }
}

/// Every answer brings an attempt closer to its end. So each one ends.
pub proof fn law_attempts_end(a: Attachment, answer: Option<isize>, s: StateView)
    requires
        a.phase != AttachPhase::Done,
    ensures
        answers_left(attach_next(a, answer, s).attachment) < answers_left(a),
{
}

/// The state that an attempt leads to and what it does to the desktop.
pub open spec fn attempt(a: Attachment, s: StateView, d: Desktop) -> (StateView, Seq<AttachEffect>)
    decreases answers_left(a),
{
    match query_of(a) {
        None => (s, Seq::empty()),
        Some(query) => {
            let step = attach_next(a, answer_of(d, query), s);
            let rest = attempt(step.attachment, step.state, d);
            (rest.0, step.effects + rest.1)
        },
    }
}

/// The taskbar of a desktop that can be attached to.
pub open spec fn reachable(d: Desktop) -> Option<isize> {
    match d.taskbar {
        Some(taskbar) if d.windows.contains(taskbar) => Some(taskbar),
        _ => None,
    }
}

/// The hook on the tray of a taskbar.
pub open spec fn tray_hook(d: Desktop, taskbar: isize) -> Option<isize> {
    match entry(d.trays, taskbar) {
        Some(tray) => entry(d.hooks, tray),
        None => None,
    }
}

/// The state of a widget that has been attached to a taskbar.
pub open spec fn attached_to(s: StateView, d: Desktop, taskbar: isize) -> StateView {
    StateView {
        taskbar_hwnd: Some(taskbar),
        tray_notify_hwnd: entry(d.trays, taskbar),
        win_event_hook: tray_hook(d, taskbar),
        embedded: true,
        ..s
    }
}

/// What attaching a widget to a taskbar does.
pub open spec fn attaching(s: StateView, taskbar: isize) -> Seq<AttachEffect> {
    seq![AttachEffect::Embed(s.hwnd, taskbar)] + unhooked(s.win_event_hook)
}

/// The state and the effects of looking after the tray on a taskbar: a tray
/// that still exists is kept, else it is replaced together with its hook.
pub open spec fn tray_looked_after(s: StateView, d: Desktop, taskbar: isize) -> (
    StateView,
    Seq<AttachEffect>,
) {
    if s.tray_notify_hwnd is Some && d.windows.contains(s.tray_notify_hwnd->0) {
        (s, Seq::empty())
    } else {
        (
            StateView {
                tray_notify_hwnd: entry(d.trays, taskbar),
                win_event_hook: tray_hook(d, taskbar),
                ..s
            },
            unhooked(s.win_event_hook),
        )
    }
}

/// The state and the effects of making sure that the widget is attached.
pub open spec fn ensured(s: StateView, d: Desktop) -> (StateView, Seq<AttachEffect>) {
    let known = s.taskbar_hwnd is Some && d.windows.contains(s.taskbar_hwnd->0);
    let done = shown(s.hwnd, s.widget_visible).push(
        AttachEffect::Timer(TimerCommand::Stop(Timer::TaskbarRetry)),
    );
    if known && s.embedded {
        let taskbar = s.taskbar_hwnd->0;
        let tray = tray_looked_after(s, d, taskbar);
        if d.parent == Some(taskbar) {
            tray
        } else {
            (
                tray.0,
                seq![AttachEffect::Embed(s.hwnd, taskbar)] + shown(s.hwnd, s.widget_visible)
                    + tray.1,
            )
        }
    } else {
        match reachable(d) {
            Some(taskbar) => (attached_to(s, d, taskbar), attaching(s, taskbar) + done),
            None => if known {
                tray_looked_after(s, d, s.taskbar_hwnd->0)
            } else {
                (
                    detached(s),
                    seq![
                        AttachEffect::Timer(
                            TimerCommand::Start(Timer::TaskbarRetry, TASKBAR_RETRY_MS),
                        ),
                    ],
                )
            },
        }
    }
}

proof fn lemma_find_tray(a: Attachment, s: StateView, d: Desktop, taskbar: isize)
    requires
        a.phase == AttachPhase::FindTray(taskbar),
    ensures
        attempt(a, s, d) == (
            StateView {
                tray_notify_hwnd: entry(d.trays, taskbar),
                win_event_hook: tray_hook(d, taskbar),
                ..s
            },
            unhooked(s.win_event_hook),
        ),
{
    reveal_with_fuel(attempt, 3);
    let none = Seq::<AttachEffect>::empty();
    assert(unhooked(s.win_event_hook) + none =~= unhooked(s.win_event_hook));
    assert(unhooked(s.win_event_hook) + (none + none) =~= unhooked(s.win_event_hook));
}

proof fn lemma_tray_attempt(a: Attachment, s: StateView, d: Desktop, taskbar: isize)
    requires
        a.phase == tray_phase(a, taskbar),
        a.tray == s.tray_notify_hwnd,
    ensures
        attempt(a, s, d) == tray_looked_after(s, d, taskbar),
{
    match a.tray {
        None => {
            lemma_find_tray(a, s, d, taskbar);
        },
        Some(tray) => {
            let step = attach_next(a, answer_of(d, Query::IsWindow(tray)), s);
            let rest = attempt(step.attachment, s, d);
            assert(attempt(a, s, d) == (rest.0, Seq::<AttachEffect>::empty() + rest.1));
            assert(Seq::<AttachEffect>::empty() + rest.1 =~= rest.1);
            if !d.windows.contains(tray) {
                lemma_find_tray(step.attachment, s, d, taskbar);
            }
        },
    }
}

proof fn lemma_new_attempt(a: Attachment, s: StateView, d: Desktop)
    requires
        a.phase == AttachPhase::FindTaskbar,
        a.hwnd == s.hwnd,
        a.visible == s.widget_visible,
        reachable(d) is Some,
    ensures
        attempt(a, s, d) == (
            attached_to(s, d, reachable(d)->0),
            attaching(s, reachable(d)->0) + attached_effects(a),
        ),
{
    reveal_with_fuel(attempt, 5);
    let (state, effects) = attempt(a, s, d);
    assert(effects =~= attaching(s, reachable(d)->0) + attached_effects(a));
    assert(state == attached_to(s, d, reachable(d)->0));
}

proof fn lemma_vain_attempt(a: Attachment, s: StateView, d: Desktop)
    requires
        a.phase == AttachPhase::FindTaskbar,
        reachable(d) is None,
    ensures
        ({
            let step = not_found(a, s);
            let rest = attempt(step.attachment, step.state, d);
            attempt(a, s, d) == (rest.0, step.effects + rest.1)
        }),
{
    reveal_with_fuel(attempt, 3);
    let step = not_found(a, s);
    let rest = attempt(step.attachment, step.state, d);
    assert(Seq::<AttachEffect>::empty() + (step.effects + rest.1) =~= step.effects + rest.1);
}

/// When the program starts, the widget is attached to the taskbar if there is
/// one, and otherwise nothing happens.
pub proof fn law_first_attachment(s: StateView, d: Desktop)
    ensures
        attempt(begun(s, Goal::First, AttachPhase::FindTaskbar), s, d) == (match reachable(d) {
            Some(taskbar) => (attached_to(s, d, taskbar), attaching(s, taskbar)),
            None => (s, Seq::empty()),
        }),
{
    let a = begun(s, Goal::First, AttachPhase::FindTaskbar);
    match reachable(d) {
        Some(taskbar) => {
            lemma_new_attempt(a, s, d);
            assert(attaching(s, taskbar) + Seq::<AttachEffect>::empty() =~= attaching(s, taskbar));
        },
        None => {
            lemma_vain_attempt(a, s, d);
            let none = Seq::<AttachEffect>::empty();
            assert(none + none =~= none);
        },
    }
}

/// Making sure that the widget is attached has the effect that it should: a
/// widget that lost its parent gets it back, one that is not embedded or whose
/// taskbar is gone is attached to the taskbar there is, and if there is none
/// the search goes on.
pub proof fn law_attachment_outcome(s: StateView, d: Desktop)
    ensures
        attempt(begun(s, Goal::Recover, first_phase(s.taskbar_hwnd)), s, d) == ensured(s, d),
{
    let a = begun(s, Goal::Recover, first_phase(s.taskbar_hwnd));
    let none = Seq::<AttachEffect>::empty();
    match s.taskbar_hwnd {
        None => {
            lemma_recovery(a, s, d);
        },
        Some(taskbar) => {
            let step = attach_next(a, answer_of(d, Query::IsWindow(taskbar)), s);
            let rest = attempt(step.attachment, s, d);
            assert(attempt(a, s, d) == (rest.0, none + rest.1));
            assert(none + rest.1 =~= rest.1);
            if !d.windows.contains(taskbar) {
                lemma_recovery(step.attachment, s, d);
            } else if s.embedded {
                let after = attach_next(step.attachment, d.parent, s);
                assert(query_of(step.attachment) == Some(Query::Parent(s.hwnd)));
                let last = attempt(after.attachment, after.state, d);
                assert(rest == (last.0, after.effects + last.1));
                assert(after.state == s);
                lemma_tray_attempt(after.attachment, s, d, taskbar);
                assert(none + last.1 =~= last.1);
                assert(rest.1 =~= ensured(s, d).1);
            } else {
                match reachable(d) {
                    Some(_) => {
                        lemma_new_attempt(step.attachment, s, d);
                        assert(rest.1 =~= ensured(s, d).1);
                    },
                    None => {
                        lemma_vain_attempt(step.attachment, s, d);
                        let next = not_found(step.attachment, s);
                        lemma_tray_attempt(next.attachment, s, d, taskbar);
                        let tray = tray_looked_after(s, d, taskbar);
                        assert(none + tray.1 =~= tray.1);
                    },
                }
            }
        },
    }
}

proof fn lemma_recovery(a: Attachment, s: StateView, d: Desktop)
    requires
        a.phase == AttachPhase::FindTaskbar,
        a.goal == Goal::Recover,
        a.hwnd == s.hwnd,
        a.visible == s.widget_visible,
        s.taskbar_hwnd is Some ==> !d.windows.contains(s.taskbar_hwnd->0),
    ensures
        attempt(a, s, d) == ensured(s, d),
{
    match reachable(d) {
        Some(_) => {
            lemma_new_attempt(a, s, d);
        },
        None => {
            lemma_vain_attempt(a, s, d);
            let step = not_found(a, s);
            let none = Seq::<AttachEffect>::empty();
            assert(step.effects + none =~= step.effects);
        },
    }
}

/// No hook is lost: a hook that the state no longer holds has been removed.
pub proof fn law_hooks_are_removed(s: StateView, d: Desktop)
    requires
        s.win_event_hook is Some,
    ensures
        ensured(s, d).0.win_event_hook == s.win_event_hook || ensured(s, d).1.contains(
            AttachEffect::Unhook(s.win_event_hook->0),
        ),
{
    let hook = s.win_event_hook->0;
    let effects = ensured(s, d).1;
    let target = AttachEffect::Unhook(hook);
    let known = s.taskbar_hwnd is Some && d.windows.contains(s.taskbar_hwnd->0);
    assert(unhooked(s.win_event_hook)[0] == target);
    if known && s.embedded {
        let taskbar = s.taskbar_hwnd->0;
        let tray = tray_looked_after(s, d, taskbar);
        if tray.1.len() > 0 {
            assert(tray.1[0] == target);
            if d.parent != Some(taskbar) {
                let lead = seq![AttachEffect::Embed(s.hwnd, taskbar)] + shown(
                    s.hwnd,
                    s.widget_visible,
                );
                assert(effects[lead.len() as int] == target);
            }
        }
    } else {
        match reachable(d) {
            Some(taskbar) => {
                assert(attaching(s, taskbar)[1] == target);
                assert(effects[1] == target);
            },
            None => {
                if known {
                    let tray = tray_looked_after(s, d, s.taskbar_hwnd->0);
                    if tray.1.len() > 0 {
                        assert(tray.1[0] == target);
                    }
                }
            },
        }
    }
}

/// A widget ends up embedded whenever there is a taskbar to embed it in. Where
/// it ends up without a taskbar, one will be looked for again, and a taskbar
/// that it ends up with exists.
pub proof fn law_attachment_is_kept_up(s: StateView, d: Desktop)
    ensures
        reachable(d) is Some ==> ensured(s, d).0.embedded,
        ensured(s, d).0.taskbar_hwnd is None ==> ensured(s, d).1 == seq![
            AttachEffect::Timer(TimerCommand::Start(Timer::TaskbarRetry, TASKBAR_RETRY_MS)),
        ],
        ensured(s, d).0.taskbar_hwnd matches Some(taskbar) ==> d.windows.contains(taskbar),
{
}

/// Making sure of the attachment a second time on the same desktop, with the
/// widget now a child of its taskbar and its tray in existence, changes
/// nothing.
pub proof fn law_attachment_is_stable(s: StateView, d: Desktop)
    requires
        s.embedded,
        s.taskbar_hwnd matches Some(taskbar) && d.windows.contains(taskbar) && d.parent == Some(
            taskbar,
        ),
        s.tray_notify_hwnd matches Some(tray) && d.windows.contains(tray),
    ensures
        ensured(s, d) == (s, Seq::<AttachEffect>::empty()),
{
}

// ---------------------------------------------------------------------------
// Placing
// ---------------------------------------------------------------------------

/// The taskbar on which the widget is to be placed. A widget that is being
/// dragged stays where the user has it.
pub open spec fn placing_taskbar(s: Option<StateView>) -> Option<isize> {
    match s {
        Some(s) if !s.dragging => s.taskbar_hwnd,
        _ => None,
    }
}

/// Finds the taskbar on which the widget is to be placed.
pub fn taskbar_for_placing(state: Option<&AppState>) -> (r: Option<isize>)
    ensures
        r == placing_taskbar(state_view(state)),
{
    match state {
        Some(s) => if s.dragging {
            None
        } else {
            s.taskbar_hwnd
        },
        None => None,
    }
}

/// How a window is to be moved.
#[derive(Clone, Copy, Debug, PartialEq, Eq, Structural)]
pub struct WindowMove {
    pub hwnd: isize,
    pub placement: Placement,
    /// Whether it is to be shown after that.
    pub show: bool,
}

/// How the widget is to be moved on a taskbar with the given rectangle and
/// tray. Not at all if the rectangle is not known or has no extent.
pub open spec fn widget_move(
    s: StateView,
    taskbar: Option<Rect>,
    tray: Option<Rect>,
    dpi: int,
) -> Option<WindowMove> {
    match taskbar {
        Some(taskbar) => match placement(s.embedded, taskbar, tray, s.tray_offset as int, dpi) {
            Some(placement) => Some(
                WindowMove { hwnd: s.hwnd, placement, show: s.widget_visible },
            ),
            None => None,
        },
        None => None,
    }
}

/// Decides how the widget is to be moved on the taskbar.
pub fn place_widget(state: &AppState, taskbar: Option<Rect>, tray: Option<Rect>, dpi: u32) -> (r:
    Option<WindowMove>)
    requires
        taskbar matches Some(taskbar) ==> taskbar_fits(taskbar),
        taskbar matches Some(taskbar) ==> (taskbar.left < taskbar.right && taskbar.top
            < taskbar.bottom ==> layout_fits(dpi)),
    ensures
        r == widget_move(state@, taskbar, tray, dpi as int),
{
    match taskbar {
        Some(taskbar) => match position_at_taskbar(
            state.embedded,
            taskbar,
            tray,
            state.tray_offset,
            dpi,
        ) {
            Some(placement) => Some(
                WindowMove { hwnd: state.hwnd, placement, show: state.widget_visible },
            ),
            None => None,
        },
        None => None,
    }
}

// ---------------------------------------------------------------------------
// What attempts lead to, case by case
// ---------------------------------------------------------------------------

/// The state and the effects of an attempt to make sure of the attachment.
pub open spec fn secured(s: StateView, d: Desktop) -> (StateView, Seq<AttachEffect>) {
    let phase = if s.taskbar_hwnd is Some {
        AttachPhase::CheckTaskbar(s.taskbar_hwnd->0)
    } else {
        AttachPhase::FindTaskbar
    };
    attempt(begun(s, Goal::Recover, phase), s, d)
}

/// The tray on a taskbar, and the hook on that tray, as far as there are any.
pub open spec fn tray_and_hook(d: Desktop, taskbar: isize) -> (Option<isize>, Option<isize>) {
    if d.trays.dom().contains(taskbar) {
        let tray = d.trays[taskbar];
        (
            Some(tray),
            if d.hooks.dom().contains(tray) {
                Some(d.hooks[tray])
            } else {
                None
            },
        )
    } else {
        (None, None)
    }
}

/// A widget that is not embedded in a taskbar that exists is embedded in the taskbar that
/// the desktop shows, and stands at the tray on it, whose movements it is told of. The
/// hook of before is removed, the search for a taskbar ends, and the widget is shown if
/// the user wants to see it. When the program starts, the last two come later.
pub proof fn law_widget_joins_the_taskbar(s: StateView, d: Desktop, taskbar: isize)
    requires
        d.taskbar == Some(taskbar),
        d.windows.contains(taskbar),
        !(s.embedded && s.taskbar_hwnd is Some && d.windows.contains(s.taskbar_hwnd->0)),
    ensures
        ({
            let (tray, hook) = tray_and_hook(d, taskbar);
            let joined = StateView {
                taskbar_hwnd: Some(taskbar),
                tray_notify_hwnd: tray,
                win_event_hook: hook,
                embedded: true,
                ..s
            };
            let (state, effects) = secured(s, d);
            let start = attempt(begun(s, Goal::First, AttachPhase::FindTaskbar), s, d);
            &&& state == joined
            &&& start.0 == joined
            &&& effects.len() > 0 && effects[0] == AttachEffect::Embed(s.hwnd, taskbar)
            &&& start.1.len() > 0 && start.1[0] == AttachEffect::Embed(s.hwnd, taskbar)
            &&& effects.last() == AttachEffect::Timer(TimerCommand::Stop(Timer::TaskbarRetry))
            &&& s.widget_visible ==> effects.contains(AttachEffect::Show(s.hwnd))
            &&& s.win_event_hook is Some ==> effects.contains(
                AttachEffect::Unhook(s.win_event_hook->0),
            ) && start.1.contains(AttachEffect::Unhook(s.win_event_hook->0))
        }),
{
    law_attachment_outcome(s, d);
    law_first_attachment(s, d);
    let effects = secured(s, d).1;
    let first = attaching(s, taskbar);
    let n = first.len() as int;
    if s.win_event_hook is Some {
        assert(first[1] == AttachEffect::Unhook(s.win_event_hook->0));
        assert(effects[1] == first[1]);
    }
    if s.widget_visible {
        assert(effects[n] == AttachEffect::Show(s.hwnd));
    }
}

/// A widget whose taskbar exists and that is embedded stays with that taskbar. If
/// something else has become its parent, it is embedded again and shown if the user wants
/// to see it; if not, nothing is done about that.
pub proof fn law_widget_keeps_its_taskbar(s: StateView, d: Desktop, taskbar: isize)
    requires
        s.taskbar_hwnd == Some(taskbar),
        d.windows.contains(taskbar),
        s.embedded,
    ensures
        ({
            let (state, effects) = secured(s, d);
            let lost = d.parent != Some(taskbar);
            &&& state.taskbar_hwnd == Some(taskbar)
            &&& state.embedded
            &&& lost ==> effects.len() > 0 && effects[0] == AttachEffect::Embed(s.hwnd, taskbar)
            &&& lost && s.widget_visible ==> effects.len() > 1 && effects[1] == AttachEffect::Show(
                s.hwnd,
            )
            &&& !lost && s.tray_notify_hwnd is Some && d.windows.contains(s.tray_notify_hwnd->0)
                ==> state == s && effects.len() == 0
        }),
{
    law_attachment_outcome(s, d);
}

/// A tray that still exists is kept, with its hook. One that is gone is replaced by the
/// tray on the taskbar, and its hook is removed and replaced by one on that tray.
pub proof fn law_tray_is_looked_after(s: StateView, d: Desktop, taskbar: isize)
    requires
        s.taskbar_hwnd == Some(taskbar),
        d.windows.contains(taskbar),
        s.embedded || d.taskbar is None,
    ensures
        ({
            let (state, effects) = secured(s, d);
            let kept = s.tray_notify_hwnd is Some && d.windows.contains(s.tray_notify_hwnd->0);
            &&& kept ==> state.tray_notify_hwnd == s.tray_notify_hwnd && state.win_event_hook
                == s.win_event_hook
            &&& !kept ==> (state.tray_notify_hwnd, state.win_event_hook) == tray_and_hook(d, taskbar)
            &&& !kept && s.win_event_hook is Some ==> effects.contains(
                AttachEffect::Unhook(s.win_event_hook->0),
            )
            &&& state.taskbar_hwnd == Some(taskbar)
        }),
{
    law_attachment_outcome(s, d);
    let (state, effects) = secured(s, d);
    let tray = tray_looked_after(s, d, taskbar);
    if s.win_event_hook is Some && tray.1.len() > 0 {
        assert(tray.1[0] == AttachEffect::Unhook(s.win_event_hook->0));
        assert(effects[effects.len() - 1] == tray.1[0]);
    }
}

/// If there is no taskbar, neither the known one nor another, the widget is without one
/// and a taskbar is looked for every two seconds. When the program starts, nothing
/// happens.
pub proof fn law_missing_taskbar_is_looked_for(s: StateView, d: Desktop)
    requires
        d.taskbar is None || !d.windows.contains(d.taskbar->0),
        s.taskbar_hwnd is None || !d.windows.contains(s.taskbar_hwnd->0),
    ensures
        ({
            let (state, effects) = secured(s, d);
            let start = attempt(begun(s, Goal::First, AttachPhase::FindTaskbar), s, d);
            &&& state == (StateView {
                taskbar_hwnd: None,
                tray_notify_hwnd: None,
                embedded: false,
                ..s
            })
            &&& effects == seq![
                AttachEffect::Timer(TimerCommand::Start(Timer::TaskbarRetry, 2_000)),
            ]
            &&& start == (s, Seq::<AttachEffect>::empty())
        }),
{
    law_attachment_outcome(s, d);
    law_first_attachment(s, d);
}

/// Attaching concerns the taskbar, the tray and the hook alone: nothing else of the state
/// changes, and a widget that the user has hidden is not shown.
pub proof fn law_attaching_changes_nothing_else(s: StateView, d: Desktop, hwnd: isize)
    ensures
        ({
            let (state, effects) = secured(s, d);
            &&& StateView {
                taskbar_hwnd: s.taskbar_hwnd,
                tray_notify_hwnd: s.tray_notify_hwnd,
                win_event_hook: s.win_event_hook,
                embedded: s.embedded,
                ..state
            } == s
            &&& effects.contains(AttachEffect::Show(hwnd)) ==> s.widget_visible && hwnd == s.hwnd
        }),
{
    law_attachment_outcome(s, d);
}

/// A press of the refresh key is for the widget if the mouse is over its icon in the tray,
/// or over the widget while that is visible; it is for nothing if there is no widget or
/// the mouse cannot be found.
pub proof fn law_key_is_for_what_is_hovered(s: StateView, pt: Point, rect: Rect, over_icon: bool)
    ensures
        hovered(Some(s), Some(pt), Some(rect), true) == Some(s.hwnd),
        hovered(Some(s), Some(pt), None, true) == Some(s.hwnd),
        hovered(Some(s), Some(pt), None, false) is None,
        hovered(Some(s), Some(pt), Some(rect), false) == Some(s.hwnd) <==> s.widget_visible
            && rect.left <= pt.x < rect.right && rect.top <= pt.y < rect.bottom,
        hovered(Some(s), Some(pt), Some(rect), false) is Some ==> hovered(
            Some(s),
            Some(pt),
            Some(rect),
            false,
        ) == Some(s.hwnd),
        hovered(None, Some(pt), Some(rect), over_icon) is None,
        hovered(Some(s), None, Some(rect), over_icon) is None,
{
}

/// A movement of the tray is followed if no deadline lies ahead and more than half a
/// second, in whole milliseconds, has passed since the last one that was followed; and a
/// movement of any other window never is.
pub proof fn law_tray_is_followed(
    s: StateView,
    hwnd: isize,
    watch: TrayWatch,
    now: u128,
)
    ensures
        follows_tray(watch, now) <==> {
            &&& watch.suppressed_until is None || watch.suppressed_until->0 <= now
            &&& watch.last_reposition is None || watch.last_reposition->0 + 501_000_000 <= now
        },
        is_tray(Some(s), hwnd) <==> s.tray_notify_hwnd == Some(hwnd),
        !is_tray(None, hwnd),
        ({
            let after = after_movement(Some(s), hwnd, watch, now);
            &&& !is_tray(Some(s), hwnd) ==> after == watch
            &&& is_tray(Some(s), hwnd) && follows_tray(watch, now) ==> after.last_reposition == Some(
                now,
            )
            &&& is_tray(Some(s), hwnd) && !follows_tray(watch, now) ==> after.last_reposition
                == watch.last_reposition
            &&& watch.suppressed_until is Some && now < watch.suppressed_until->0 ==> after == watch
            &&& is_tray(Some(s), hwnd) && (watch.suppressed_until is None
                || watch.suppressed_until->0 <= now) ==> after.suppressed_until is None
        }),
{
}

/// The widget is moved to where its offset puts it on the taskbar, and shown if the user
/// wants to see it. It is not moved while the user drags it, nor if there is no room to
/// move it on.
pub proof fn law_widget_is_moved(s: StateView, taskbar: Rect, tray: Option<Rect>, dpi: int)
    ensures
        widget_move(s, None, tray, dpi) is None,
        widget_move(s, Some(taskbar), tray, dpi) is Some <==> placement(
            s.embedded,
            taskbar,
            tray,
            s.tray_offset as int,
            dpi,
        ) is Some,
        widget_move(s, Some(taskbar), tray, dpi) matches Some(m) ==> m.hwnd == s.hwnd && m.show
            == s.widget_visible && Some(m.placement) == placement(
            s.embedded,
            taskbar,
            tray,
            s.tray_offset as int,
            dpi,
        ),
        s.dragging ==> placing_taskbar(Some(s)) is None,
        !s.dragging ==> placing_taskbar(Some(s)) == s.taskbar_hwnd,
        placing_taskbar(None) is None,
{
}

} // verus!
