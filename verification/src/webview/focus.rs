//! The view as a stop in the host's keyboard focus.
//!
//! The engine only hears keys the host forwards, and the host has to know when
//! to: this frame is the view's one focus stop, reached by Tab like any other
//! control, or taken by a click or a tap on the page. While it holds focus every
//! key but Tab goes to the page. Tab is left alone, to move on: a view that
//! swallowed it would be a trap. The copy shortcut copies the page's selection
//! through [`Action::CopySelection`].
//!
//! The frame also tells the engine when it gains and loses focus, which is what
//! an engine needs before it acts on keys at all.

use vstd::prelude::*;

use crate::input::{Event, KeyboardEvent, MouseEvent, TouchEvent};
use crate::webview::basic::Action;

verus! {

/// What the frame remembers between events.
#[derive(Debug)]
pub struct FrameState {
    focused: bool,
    /// What the engine was last told, so each change is told once.
    told: bool,
}

/// What an event made the frame do.
#[derive(Debug)]
pub struct FrameResponse {
    /// What is published, in order.
    pub published: Vec<Action>,
    /// Whether the event is kept from the widgets behind.
    pub captured: bool,
}

/// Whether the frame has the keyboard, and what the engine was last told.
pub struct FrameView {
    pub focused: bool,
    pub told: bool,
}

impl View for FrameState {
    type V = FrameView;

    closed spec fn view(&self) -> FrameView {
        FrameView { focused: self.focused, told: self.told }
    }
}

/// Whether an event is a press, of a button or of a finger.
pub open spec fn is_press(event: Event) -> bool {
    ||| event matches Event::Mouse(MouseEvent::ButtonPressed(_))
    ||| event matches Event::Touch(TouchEvent::FingerPressed { .. })
}

impl FrameView {
    /// The frame of a page nobody has turned to yet.
    pub open spec fn at_start() -> FrameView {
        FrameView { focused: false, told: false }
    }

    /// Whether the frame has the keyboard after an event: a press on the page
    /// takes it, one anywhere else lets it go.
    pub open spec fn keeps_focus(self, event: Event, over: bool) -> bool {
        if is_press(event) {
            over
        } else {
            self.focused
        }
    }

    /// What becomes of the frame by an event.
    pub open spec fn after(self, event: Event, over: bool) -> FrameView {
        FrameView {
            focused: self.keeps_focus(event, over),
            told: self.keeps_focus(event, over),
        }
    }

    /// What an event makes the frame publish: a change of focus, then the key,
    /// where the frame has the keyboard and the key is not Tab.
    pub open spec fn publishes(self, event: Event, over: bool) -> Seq<Action> {
        let focused = self.keeps_focus(event, over);
        (if focused == self.told {
            Seq::empty()
        } else if focused {
            seq![Action::Focus]
        } else {
            seq![Action::Unfocus]
        }) + (match event {
            Event::Keyboard(key) => if !focused || key.is_tab() {
                Seq::empty()
            } else if key.is_copy_shortcut() {
                seq![Action::CopySelection]
            } else {
                seq![Action::SendKeyboardEvent(key)]
            },
            _ => Seq::empty(),
        })
    }

    /// Whether an event is kept from the widgets behind.
    pub open spec fn captures(self, event: Event, over: bool) -> bool {
        event matches Event::Keyboard(key) && self.keeps_focus(event, over) && !key.is_tab()
    }
}

/// Whether a key is forwarded to the page.
pub open spec fn forwards_key(published: Seq<Action>) -> bool {
    exists|i: int| 0 <= i < published.len() && #[trigger] published[i] is SendKeyboardEvent
}

impl Default for FrameState {
    fn default() -> (state: Self)
        ensures
            state@ == FrameView::at_start(),
    {
        FrameState { focused: false, told: false }
    }
}

impl FrameState {
    /// Whether the frame has the keyboard.
    pub fn is_focused(&self) -> (focused: bool)
        ensures
            focused == self@.focused,
    {
        self.focused
    }

    /// Give the frame the keyboard. The engine hears of it with the next event.
    pub fn focus(&mut self)
        ensures
            final(self)@ == (FrameView { focused: true, ..old(self)@ }),
    {
        self.focused = true;
    }

    /// Take the keyboard away. The engine hears of it with the next event.
    pub fn unfocus(&mut self)
        ensures
            final(self)@ == (FrameView { focused: false, ..old(self)@ }),
    {
        self.focused = false;
    }

    /// Take in an event. `over` says whether a press is on the page.
    pub fn update(&mut self, event: &Event, over: bool) -> (response: FrameResponse)
        ensures
            final(self)@ == old(self)@.after(*event, over),
            response.published@ == old(self)@.publishes(*event, over),
            response.captured == old(self)@.captures(*event, over),
    {
        match event {
            Event::Mouse(MouseEvent::ButtonPressed(_)) => {
                self.focused = over;
            },
            Event::Touch(TouchEvent::FingerPressed { .. }) => {
                self.focused = over;
            },
            _ => {},
        }
        let mut published: Vec<Action> = Vec::new();
        if self.focused != self.told {
            self.told = self.focused;
            published.push(
                if self.focused {
                    Action::Focus
                } else {
                    Action::Unfocus
                },
            );
        }
        let mut captured: bool = false;
        if self.focused {
            match event {
                Event::Keyboard(key) => {
                    if key.moves_focus() {
                    } else if key.copies_selection() {
                        published.push(Action::CopySelection);
                        captured = true;
                    } else {
                        published.push(Action::SendKeyboardEvent(key.clone()));
                        captured = true;
                    }
                },
                _ => {},
            }
        }
        assert(published@ =~= old(self)@.publishes(*event, over));
        FrameResponse { published, captured }
    }

    /// Whether the host's focus ring is drawn over the page. `ring` says
    /// whether the host has one and shows rings right now.
    pub fn draws_ring(&self, ring: Option<bool>) -> (draws: bool)
        ensures
            draws == (self@.focused && ring == Some(true)),
    {
        match ring {
            Some(visible) => self.focused && visible,
            None => false,
        }
    }
}

/// After every event the engine knows whether the page has the keyboard, and
/// where nothing changed it is told nothing.
pub proof fn law_engine_knows_focus(state: FrameView, event: Event, over: bool)
    ensures
        state.after(event, over).told == state.after(event, over).focused,
        state.keeps_focus(event, over) == state.told ==> !state.publishes(event, over).contains(
            Action::Focus,
        ) && !state.publishes(event, over).contains(Action::Unfocus),
{
}

/// Tab is never kept from moving on: it is neither forwarded nor captured.
pub proof fn law_tab_moves_on(state: FrameView, key: KeyboardEvent, over: bool)
    requires
        key.is_tab(),
    ensures
        !state.captures(Event::Keyboard(key), over),
        !forwards_key(state.publishes(Event::Keyboard(key), over)),
{
}

/// A page without the keyboard hears no key, and nothing is kept from the
/// widgets behind.
pub proof fn law_unfocused_page_hears_no_key(state: FrameView, key: KeyboardEvent, over: bool)
    requires
        !state.focused,
    ensures
        !state.captures(Event::Keyboard(key), over),
        !forwards_key(state.publishes(Event::Keyboard(key), over)),
        !state.publishes(Event::Keyboard(key), over).contains(Action::CopySelection),
{
}

/// A page with the keyboard hears every key but Tab, the copy shortcut as a
/// copy.
pub proof fn law_focused_page_hears_keys(state: FrameView, key: KeyboardEvent, over: bool)
    requires
        state.focused,
        !key.is_tab(),
    ensures
        state.captures(Event::Keyboard(key), over),
        state.publishes(Event::Keyboard(key), over).len() > 0,
        state.publishes(Event::Keyboard(key), over).last() == if key.is_copy_shortcut() {
            Action::CopySelection
        } else {
            Action::SendKeyboardEvent(key)
        },
{
}

/// Something that happens to a frame: an event, or the host moving the focus.
pub enum FrameStep {
    Happened(Event, bool),
    Focused(bool),
}

/// The frame after a list of steps.
pub open spec fn frame_after(steps: Seq<FrameStep>) -> FrameView
    decreases steps.len(),
{
    if steps.len() == 0 {
        FrameView::at_start()
    } else {
        let before = frame_after(steps.drop_last());
        match steps.last() {
            FrameStep::Happened(event, over) => before.after(event, over),
            FrameStep::Focused(focused) => FrameView { focused, ..before },
        }
    }
}

/// What the last step makes the frame publish.
pub open spec fn last_published(steps: Seq<FrameStep>) -> Seq<Action> {
    match steps.last() {
        FrameStep::Happened(event, over) => frame_after(steps.drop_last()).publishes(event, over),
        FrameStep::Focused(_) => Seq::empty(),
    }
}

/// How often the engine was told of a gain of focus, less how often of a loss.
pub open spec fn gains_less_losses(steps: Seq<FrameStep>) -> int
    decreases steps.len(),
{
    if steps.len() == 0 {
        0
    } else {
        gains_less_losses(steps.drop_last()) + (if last_published(steps).contains(Action::Focus) {
            1int
        } else {
            0
        }) - (if last_published(steps).contains(Action::Unfocus) {
            1int
        } else {
            0
        })
    }
}

/// Gains and losses of focus alternate, a gain first: whatever happened, the
/// engine was told of at most one gain more than of losses, of exactly one
/// while it takes the page to have the keyboard.
pub proof fn law_gains_and_losses_alternate(steps: Seq<FrameStep>)
    ensures
        gains_less_losses(steps) == if frame_after(steps).told {
            1int
        } else {
            0
        },
    decreases steps.len(),
{
    if steps.len() > 0 {
        let start = steps.drop_last();
        law_gains_and_losses_alternate(start);
        let before = frame_after(start);
        match steps.last() {
            FrameStep::Happened(event, over) => {
                let published = before.publishes(event, over);
                if before.keeps_focus(event, over) != before.told {
                    assert(published[0] == if before.keeps_focus(event, over) {
                        Action::Focus
                    } else {
                        Action::Unfocus
                    });
                }
            },
            FrameStep::Focused(_) => {},
        }
    }
}

/// An event has the engine hear of a change of focus first, where the page has
/// the keyboard from then on and the engine does not know, or the other way
/// round; then of the key, where the page has the keyboard and the key is not
/// Tab. It hears nothing else.
pub proof fn law_frame_publishes_change_and_key(state: FrameView, event: Event, over: bool)
    ensures
        ({
            let pressed = match event {
                Event::Mouse(MouseEvent::ButtonPressed(_)) => true,
                Event::Touch(TouchEvent::FingerPressed { .. }) => true,
                _ => false,
            };
            let focused = if pressed {
                over
            } else {
                state.focused
            };
            let changed: int = if focused != state.told {
                1
            } else {
                0
            };
            let heard = event matches Event::Keyboard(key) && focused && !key.is_tab();
            let published = state.publishes(event, over);
            &&& published.len() == changed + if heard {
                1int
            } else {
                0
            }
            &&& changed == 1 && focused ==> published[0] == Action::Focus
            &&& changed == 1 && !focused ==> published[0] == Action::Unfocus
            &&& event matches Event::Keyboard(key) ==> (heard ==> published[changed]
                == if key.is_copy_shortcut() {
                Action::CopySelection
            } else {
                Action::SendKeyboardEvent(key)
            })
            &&& state.captures(event, over) <==> heard
            &&& state.after(event, over).focused == focused
            &&& state.after(event, over).told == focused
        }),
{
}

/// At the start the page does not have the keyboard, and the engine knows.
pub proof fn law_frame_starts_without_focus()
    ensures
        !FrameView::at_start().focused,
        !FrameView::at_start().told,
{
}

/// A press is a mouse button or a finger going down, and nothing else.
pub proof fn law_press_is_going_down(mouse: MouseEvent, touch: TouchEvent, key: KeyboardEvent)
    ensures
        is_press(Event::Mouse(mouse)) <==> mouse is ButtonPressed,
        is_press(Event::Touch(touch)) <==> touch is FingerPressed,
        !is_press(Event::Keyboard(key)),
        !is_press(Event::Other),
{
}

} // verus!
