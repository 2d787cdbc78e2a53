//! Decisions of the render window's event loop: what each input asks for and
//! when the mouse pointer shows or hides.

use vstd::prelude::*;

verus! {

/// After this long without mouse activity the pointer hides (in milliseconds).
pub const CURSOR_IDLE_HIDE_MS: u64 = 2500;

/// A key the window reacts to.
#[derive(Debug, Clone, Copy, PartialEq, Eq, Structural)]
pub enum Key {
    Q,
    Escape,
    F,
    Z,
    Other,
}

/// An input event of the window, reduced to what the loop looks at.
#[derive(Debug, Clone, Copy, PartialEq, Eq, Structural)]
pub enum InputEvent {
    /// The window was asked to close.
    Quit,
    /// A key was pressed.
    KeyDown(Key),
    /// A mouse button was pressed `clicks` times in a row.
    MouseButtonDown { left: bool, clicks: u8 },
    MouseMotion,
    MouseWheel,
    /// The window regained focus.
    FocusGained,
    Other,
}

/// What the loop does for one event.
#[derive(Debug, Clone, Copy, PartialEq, Eq, Structural)]
pub enum EventAction {
    /// Close the window.
    Quit,
    ToggleFullscreen,
    ExitFullscreen,
    /// Switch between filling the window and fitting inside it.
    ToggleFill,
    Nothing,
}

/// What happens to the mouse pointer.
#[derive(Debug, Clone, Copy, PartialEq, Eq, Structural)]
pub enum CursorAction {
    Show,
    Hide,
    Keep,
}

/// Events that count as mouse activity (and bring the pointer back).
pub open spec fn is_activity(e: InputEvent) -> bool {
    match e {
        InputEvent::MouseMotion | InputEvent::MouseButtonDown { .. } | InputEvent::MouseWheel
        | InputEvent::FocusGained => true,
        _ => false,
    }
}

/// The action an event asks for: Q or closing quits; Escape first leaves
/// fullscreen and closes otherwise; F or a left double click toggles
/// fullscreen; Z toggles fill.
pub open spec fn action_for(e: InputEvent, fullscreen: bool) -> EventAction {
    match e {
        InputEvent::Quit => EventAction::Quit,
        InputEvent::KeyDown(Key::Q) => EventAction::Quit,
        InputEvent::KeyDown(Key::Escape) => if fullscreen {
            EventAction::ExitFullscreen
        } else {
            EventAction::Quit
        },
        InputEvent::KeyDown(Key::F) => EventAction::ToggleFullscreen,
        InputEvent::MouseButtonDown { left, clicks } => if left && clicks == 2 {
            EventAction::ToggleFullscreen
        } else {
            EventAction::Nothing
        },
        InputEvent::KeyDown(Key::Z) => EventAction::ToggleFill,
        _ => EventAction::Nothing,
    }
}

/// Some event of `events` is mouse activity.
pub open spec fn any_activity(events: Seq<InputEvent>) -> bool {
    exists|i: int| 0 <= i < events.len() && is_activity(#[trigger] events[i])
}

/// What happens to the pointer after a batch of events: activity shows it
/// when hidden; a visible pointer idle for [`CURSOR_IDLE_HIDE_MS`] hides.
pub open spec fn cursor_for(active: bool, visible: bool, idle_ms: u64) -> CursorAction {
    if active {
        if !visible {
            CursorAction::Show
        } else {
            CursorAction::Keep
        }
    } else if visible && idle_ms >= CURSOR_IDLE_HIDE_MS {
        CursorAction::Hide
    } else {
        CursorAction::Keep
    }
}

/// Whether the event is mouse activity.
pub fn is_mouse_activity(e: InputEvent) -> (r: bool)
    ensures
        r == is_activity(e),
{
    match e {
        InputEvent::MouseMotion | InputEvent::MouseButtonDown { .. } | InputEvent::MouseWheel
        | InputEvent::FocusGained => true,
        _ => false,
    }
}

/// The action for one event, given whether the window is now fullscreen.
pub fn event_action(e: InputEvent, fullscreen: bool) -> (r: EventAction)
    ensures
        r == action_for(e, fullscreen),
{
    match e {
        InputEvent::Quit | InputEvent::KeyDown(Key::Q) => EventAction::Quit,
        InputEvent::KeyDown(Key::Escape) => {
            if fullscreen {
                EventAction::ExitFullscreen
            } else {
                EventAction::Quit
            }
        },
        InputEvent::KeyDown(Key::F) => EventAction::ToggleFullscreen,
        InputEvent::MouseButtonDown { left: true, clicks: 2 } => EventAction::ToggleFullscreen,
        InputEvent::KeyDown(Key::Z) => EventAction::ToggleFill,
        _ => EventAction::Nothing,
    }
}

/// Whether any of the events is mouse activity.
pub fn has_mouse_activity(events: &[InputEvent]) -> (r: bool)
    ensures
        r == any_activity(events@),
{
    let mut i: usize = 0;
    while i < events.len()
        invariant
            i <= events@.len(),
            forall|k: int| 0 <= k < i ==> !is_activity(#[trigger] events@[k]),
        decreases events@.len() - i,
    {
        if is_mouse_activity(events[i]) {
            return true;
        }
        i = i + 1;
    }
    false
}

/// What happens to the pointer after a batch of events.
pub fn cursor_action(events: &[InputEvent], visible: bool, idle_ms: u64) -> (r: CursorAction)
    ensures
        r == cursor_for(any_activity(events@), visible, idle_ms),
{
    let active = has_mouse_activity(events);
    if active {
        if !visible {
            CursorAction::Show
        } else {
            CursorAction::Keep
        }
    } else if visible && idle_ms >= CURSOR_IDLE_HIDE_MS {
        CursorAction::Hide
    } else {
        CursorAction::Keep
    }
}

/// Escape never closes a fullscreen window: it only leaves fullscreen.
pub proof fn escape_leaves_fullscreen_first(fullscreen: bool)
    ensures
        fullscreen ==> action_for(InputEvent::KeyDown(Key::Escape), fullscreen)
            == EventAction::ExitFullscreen,
        !fullscreen ==> action_for(InputEvent::KeyDown(Key::Escape), fullscreen)
            == EventAction::Quit,
{
}

/// Activity never hides the pointer, and idleness never shows it.
pub proof fn cursor_follows_activity(active: bool, visible: bool, idle_ms: u64)
    ensures
        active ==> cursor_for(active, visible, idle_ms) != CursorAction::Hide,
        !active ==> cursor_for(active, visible, idle_ms) != CursorAction::Show,
{
}

/// The keys and clicks do what they say whatever the window's state: closing
/// the window and Q quit, F and a left double click toggle fullscreen, Z
/// toggles fill, a single click, a right double click and motion do nothing.
pub proof fn inputs_do_what_they_say(fullscreen: bool, clicks: u8)
    ensures
        action_for(InputEvent::Quit, fullscreen) == EventAction::Quit,
        action_for(InputEvent::KeyDown(Key::Q), fullscreen) == EventAction::Quit,
        action_for(InputEvent::KeyDown(Key::F), fullscreen) == EventAction::ToggleFullscreen,
        action_for(InputEvent::MouseButtonDown { left: true, clicks: 2 }, fullscreen)
            == EventAction::ToggleFullscreen,
        action_for(InputEvent::KeyDown(Key::Z), fullscreen) == EventAction::ToggleFill,
        clicks != 2 ==> action_for(InputEvent::MouseButtonDown { left: true, clicks }, fullscreen)
            == EventAction::Nothing,
        action_for(InputEvent::MouseButtonDown { left: false, clicks }, fullscreen)
            == EventAction::Nothing,
        action_for(InputEvent::MouseMotion, fullscreen) == EventAction::Nothing,
        action_for(InputEvent::KeyDown(Key::Other), fullscreen) == EventAction::Nothing,
{
}

/// The pointer reappears on mouse activity when hidden, hides once visible
/// and idle for [`CURSOR_IDLE_HIDE_MS`], and otherwise stays as it is.
pub proof fn pointer_hides_when_idle(active: bool, visible: bool, idle_ms: u64)
    ensures
        active && !visible ==> cursor_for(active, visible, idle_ms) == CursorAction::Show,
        active && visible ==> cursor_for(active, visible, idle_ms) == CursorAction::Keep,
        !active && visible && idle_ms >= 2500 ==> cursor_for(active, visible, idle_ms)
            == CursorAction::Hide,
        !active && (idle_ms < 2500 || !visible) ==> cursor_for(active, visible, idle_ms)
            == CursorAction::Keep,
{
}

} // verus!
