use crate::geometry::Point;
use vstd::prelude::*;

verus! {

/// A pointer button.
#[derive(Clone, Copy, Debug, PartialEq, Eq, Structural)]
pub enum PointerButton {
    Left,
    Right,
    Middle,
    Back,
    Forward,
    Other(u16),
}

/// The fixed priority in which pressed buttons are considered when an
/// action starts: lower comes first.
pub open spec fn priority(b: PointerButton) -> int {
    match b {
        PointerButton::Left => 0,
        PointerButton::Right => 1,
        PointerButton::Middle => 2,
        PointerButton::Back => 3,
        PointerButton::Forward => 4,
        PointerButton::Other(n) => 5 + n,
    }
}

/// Executable form of `priority`.
pub fn priority_of(b: PointerButton) -> (r: u32)
    ensures
        r == priority(b),
{
    match b {
        PointerButton::Left => 0,
        PointerButton::Right => 1,
        PointerButton::Middle => 2,
        PointerButton::Back => 3,
        PointerButton::Forward => 4,
        PointerButton::Other(n) => 5 + n as u32,
    }
}

/// The pressed button of highest priority, if any is pressed.
pub open spec fn first_pressed(pressed: Seq<PointerButton>) -> Option<PointerButton>
    decreases pressed.len(),
{
    if pressed.len() == 0 {
        None
    } else {
        let b = pressed.last();
        match first_pressed(pressed.drop_last()) {
            None => Some(b),
            Some(r) => if priority(b) < priority(r) {
                Some(b)
            } else {
                Some(r)
            },
        }
    }
}

/// `first_pressed` is the pressed button of least priority value, and is
/// absent only when nothing is pressed.
pub proof fn lemma_first_pressed(pressed: Seq<PointerButton>)
    ensures
        first_pressed(pressed) is None <==> pressed.len() == 0,
        first_pressed(pressed) matches Some(b) ==> pressed.contains(b) && forall|i: int|
            0 <= i < pressed.len() ==> priority(b) <= #[trigger] priority(pressed[i]),
    decreases pressed.len(),
{
    if pressed.len() > 0 {
        let rest = pressed.drop_last();
        lemma_first_pressed(rest);
        assert(pressed =~= rest.push(pressed.last()));
        if let Some(r) = first_pressed(rest) {
            let j = choose|j: int| 0 <= j < rest.len() && rest[j] == r;
            assert(pressed[j] == r);
        }
    }
}

/// Two buttons of equal priority are the same button.
pub proof fn lemma_priority_injective(a: PointerButton, b: PointerButton)
    ensures
        priority(a) == priority(b) ==> a == b,
{
}

/// The button an action starts with: the first pressed one in priority order.
pub fn first_pressed_button(pressed: &[PointerButton]) -> (r: Option<PointerButton>)
    ensures
        r == first_pressed(pressed@),
{
    let mut best: Option<PointerButton> = None;
    let mut i: usize = 0;
    while i < pressed.len()
        invariant
            0 <= i <= pressed@.len(),
            best == first_pressed(pressed@.subrange(0, i as int)),
        decreases pressed@.len() - i,
    {
        let b = pressed[i];
        proof {
            let s = pressed@.subrange(0, i as int + 1);
            assert(s.drop_last() =~= pressed@.subrange(0, i as int));
            assert(s.last() == b);
        }
        best = match best {
            None => Some(b),
            Some(r) => if priority_of(b) < priority_of(r) {
                Some(b)
            } else {
                Some(r)
            },
        };
        i = i + 1;
    }
    assert(pressed@.subrange(0, pressed@.len() as int) =~= pressed@);
    best
}

/// An action on the canvas: the button that drives it and the rectangle it
/// spans, from the press point to the current pointer point.
#[derive(Clone, Copy, Debug, PartialEq, Eq, Structural)]
pub struct Actions {
    pub button_push: Option<PointerButton>,
    pub from: Point,
    pub to: Point,
}

impl Actions {
    /// No action in progress; both corners at the zero point.
    pub open spec fn idle() -> Actions {
        Actions { button_push: None, from: Point::origin(), to: Point::origin() }
    }

    pub fn new() -> (r: Actions)
        ensures
            r == Actions::idle(),
    {
        Actions { button_push: None, from: Point::zero(), to: Point::zero() }
    }
}

impl Default for Actions {
    fn default() -> (r: Actions)
        ensures
            r == Actions::idle(),
    {
        Actions::new()
    }
}

/// The action after one pointer sample.
///
/// An undefined pointer (outside the canvas) changes nothing. While the
/// tracked button stays pressed only `to` follows the pointer. Otherwise a
/// new action starts at the pointer, driven by the first pressed button.
pub open spec fn maintained(
    action: Actions,
    pointer: Option<Point>,
    pressed: Seq<PointerButton>,
) -> Actions {
    match pointer {
        None => action,
        Some(p) => match action.button_push {
            Some(b) if pressed.contains(b) => Actions { to: p, ..action },
            _ => Actions { button_push: first_pressed(pressed), from: p, to: p },
        },
    }
}

/// Whether `b` is among `pressed`.
pub fn is_pressed(pressed: &[PointerButton], b: PointerButton) -> (r: bool)
    ensures
        r == pressed@.contains(b),
{
    let mut i: usize = 0;
    while i < pressed.len()
        invariant
            0 <= i <= pressed@.len(),
            forall|j: int| 0 <= j < i ==> pressed@[j] != b,
        decreases pressed@.len() - i,
    {
        if pressed[i] == b {
            return true;
        }
        i = i + 1;
    }
    false
}

/// Updates the action from this frame's pointer position (`None` when the
/// pointer is outside the canvas) and the buttons currently held.
pub fn maintain_actions(action: &mut Actions, pointer: Option<Point>, pressed: &[PointerButton])
    ensures
        *final(action) == maintained(*old(action), pointer, pressed@),
        pointer is None ==> *final(action) == *old(action),
{
    match pointer {
        None => {},
        Some(p) => {
            let keep = match action.button_push {
                Some(b) => is_pressed(pressed, b),
                None => false,
            };
            if keep {
                action.to = p;
            } else {
                action.from = p;
                action.to = p;
                action.button_push = first_pressed_button(pressed);
            }
        },
    }
}

/// Ends the action: no button, both corners back at the zero point.
pub fn reset_action(action: &mut Actions)
    ensures
        *final(action) == Actions::idle(),
{
    *action = Actions::new();
}

/// Whether an action is in progress.
pub fn performing_actions(action: &Actions) -> (r: bool)
    ensures
        r == action.button_push is Some,
{
    action.button_push.is_some()
}

/// The buttons whose release can finish an action.
pub open spec fn finishes_action(b: PointerButton) -> bool {
    b == PointerButton::Left || b == PointerButton::Right || b == PointerButton::Middle
}

/// Whether the primary, secondary or middle button was released this frame.
pub fn mouse_just_released(released: &[PointerButton]) -> (r: bool)
    ensures
        r == exists|i: int| 0 <= i < released@.len() && finishes_action(#[trigger] released@[i]),
{
    let mut i: usize = 0;
    while i < released.len()
        invariant
            0 <= i <= released@.len(),
            forall|j: int| 0 <= j < i ==> !finishes_action(#[trigger] released@[j]),
        decreases released@.len() - i,
    {
        let b = released[i];
        if b == PointerButton::Left || b == PointerButton::Right || b == PointerButton::Middle {
            return true;
        }
        i = i + 1;
    }
    false
}

/// The outline drawn over an action: its press corner and its signed extent.
#[derive(Clone, Copy, Debug, PartialEq, Eq, Structural)]
pub struct Outline {
    pub origin: Point,
    pub width: i64,
    pub height: i64,
}

/// The rectangle to outline for the current action, spanning `from` to `to`.
pub fn actions_outline(action: &Actions) -> (r: Outline)
    ensures
        r.origin == action.from,
        r.width == action.to.x - action.from.x,
        r.height == action.to.y - action.from.y,
{
    Outline {
        origin: action.from,
        width: action.to.x as i64 - action.from.x as i64,
        height: action.to.y as i64 - action.from.y as i64,
    }
}

} // verus!
