//! Mouse buttons and the per-frame state of their presses and releases.
use vstd::prelude::*;

verus! {

/// Mouse button
#[derive(Clone, Copy, PartialEq, Eq, Debug, Structural)]
pub enum MouseButton {
    /// Left mouse button
    Left,
    /// Middle mouse button
    Middle,
    /// Right mouse button
    Right,
    /// Side mouse button 0
    Side0,
    /// Side mouse button 1
    Side1,
}

/// The number of mouse buttons.
pub const MOUSE_BUTTON_COUNT: usize = 5;

/// The index of a button, in declaration order.
pub open spec fn button_index(b: MouseButton) -> u8 {
    match b {
        MouseButton::Left => 0,
        MouseButton::Middle => 1,
        MouseButton::Right => 2,
        MouseButton::Side0 => 3,
        MouseButton::Side1 => 4,
    }
}

/// The name a button is displayed with.
pub open spec fn mouse_button_name(b: MouseButton) -> Seq<char> {
    match b {
        MouseButton::Left => "left button"@,
        MouseButton::Middle => "middle button"@,
        MouseButton::Right => "right button"@,
        MouseButton::Side0 => "side button 0"@,
        MouseButton::Side1 => "side button 1"@,
    }
}

impl MouseButton {
    /// The index of the button, in declaration order.
    pub fn index(self) -> (r: usize)
        ensures
            r == button_index(self),
    {
        match self {
            MouseButton::Left => 0,
            MouseButton::Middle => 1,
            MouseButton::Right => 2,
            MouseButton::Side0 => 3,
            MouseButton::Side1 => 4,
        }
    }

    /// The button with the given index, if there is one.
    pub fn from_idx(idx: usize) -> (r: Option<MouseButton>)
        ensures
            r matches Some(b) ==> button_index(b) == idx,
            r is None <==> idx >= MOUSE_BUTTON_COUNT,
    {
        match idx {
            0 => Some(MouseButton::Left),
            1 => Some(MouseButton::Middle),
            2 => Some(MouseButton::Right),
            3 => Some(MouseButton::Side0),
            4 => Some(MouseButton::Side1),
            _ => None,
        }
    }

    /// The name of the button.
    pub fn name(&self) -> (r: &'static str)
        ensures
            r@ == mouse_button_name(*self),
    {
        match *self {
            MouseButton::Left => "left button",
            MouseButton::Middle => "middle button",
            MouseButton::Right => "right button",
            MouseButton::Side0 => "side button 0",
            MouseButton::Side1 => "side button 1",
        }
    }
}

/// Button state
#[derive(Clone, Copy, PartialEq, Eq, Debug, Structural)]
pub enum ButtonState {
    /// Button is up.
    Up,
    /// Button is pressed (implies that the key is down).
    Pressed,
    /// Button is down, but was pressed in a previous frame.
    Down,
    /// Button was released (implies that the key is up).
    Released,
}

impl ButtonState {
    /// Is the button down: pressed in this frame or an earlier one?
    pub fn is_down(self) -> (r: bool)
        ensures
            r == (self == ButtonState::Pressed || self == ButtonState::Down),
    {
        match self {
            ButtonState::Pressed | ButtonState::Down => true,
            _ => false,
        }
    }

    /// Is the button up: released in this frame or an earlier one?
    pub fn is_up(self) -> (r: bool)
        ensures
            r == (self == ButtonState::Released || self == ButtonState::Up),
    {
        match self {
            ButtonState::Released | ButtonState::Up => true,
            _ => false,
        }
    }
}

/// Is bit `i` of `x` set?
pub open spec fn has_bit(x: u8, i: u8) -> bool {
    x & (1u8 << i) != 0
}

proof fn lemma_set_bit(x: u8, i: u8)
    by (bit_vector)
    requires
        i < 8,
    ensures
        forall|j: u8| j < 8 ==> #[trigger] has_bit(x | (1u8 << i), j) == (j == i || has_bit(x, j)),
{
}

proof fn lemma_clear_bit(x: u8, i: u8)
    by (bit_vector)
    requires
        i < 8,
    ensures
        forall|j: u8|
            j < 8 ==> #[trigger] has_bit(x & !(1u8 << i), j) == (j != i && has_bit(x, j)),
{
}

proof fn lemma_no_bits()
    by (bit_vector)
    ensures
        forall|j: u8| j < 8 ==> !#[trigger] has_bit(0u8, j),
{
}

/// The state a button reads as, from whether it was pressed in this frame, is down, and was
/// released in this frame.
pub open spec fn state_of(f: (bool, bool, bool)) -> ButtonState {
    if f.0 {
        ButtonState::Pressed
    } else if f.1 {
        ButtonState::Down
    } else if f.2 {
        ButtonState::Released
    } else {
        ButtonState::Up
    }
}

/// The flags of a button after a change: a press marks it pressed and down, a release
/// marks it released and no longer down.
pub open spec fn after_change(f: (bool, bool, bool), c: Option<bool>) -> (bool, bool, bool) {
    match c {
        None => f,
        Some(true) => (true, true, f.2),
        Some(false) => (false, false, true),
    }
}

/// The last change of button `b` among the changes of a frame, if any.
pub open spec fn last_change<T>(s: Seq<(T, bool)>, b: T) -> Option<bool>
    decreases s.len(),
{
    if s.len() == 0 {
        None
    } else {
        match last_change(s.drop_first(), b) {
            Some(v) => Some(v),
            None => if s[0].0 == b {
                Some(s[0].1)
            } else {
                None
            },
        }
    }
}

/// The buttons the changes of a frame touch, each once, the one changed last first.
pub open spec fn changed_buttons<T>(s: Seq<(T, bool)>) -> Seq<T>
    decreases s.len(),
{
    if s.len() == 0 {
        Seq::empty()
    } else {
        let t = changed_buttons(s.drop_first());
        if t.contains(s[0].0) {
            t
        } else {
            t.push(s[0].0)
        }
    }
}

/// A button is among the changed ones exactly when it has a last change.
pub proof fn lemma_changed_buttons_contains<T>(s: Seq<(T, bool)>, b: T)
    ensures
        changed_buttons(s).contains(b) <==> last_change(s, b) is Some,
    decreases s.len(),
{
    if s.len() > 0 {
        lemma_changed_buttons_contains(s.drop_first(), b);
        let t = changed_buttons(s.drop_first());
        if !t.contains(s[0].0) {
            assert(t.push(s[0].0).last() == s[0].0);
            if t.push(s[0].0).contains(b) {
                let i = choose|i: int| 0 <= i < t.push(s[0].0).len() && t.push(s[0].0)[i] == b;
                if i < t.len() {
                    assert(t[i] == b);
                }
            }
            if t.contains(b) {
                let i = choose|i: int| 0 <= i < t.len() && t[i] == b;
                assert(t.push(s[0].0)[i] == b);
            }
        }
    }
}

/// Does `v` hold `b`?
fn contains_button(v: &Vec<MouseButton>, b: MouseButton) -> (r: bool)
    ensures
        r == v@.contains(b),
{
    let mut i: usize = 0;
    while i < v.len()
        invariant
            i <= v@.len(),
            forall|j: int| 0 <= j < i ==> v@[j] != b,
        decreases v@.len() - i,
    {
        if v[i] == b {
            return true;
        }
        i = i + 1;
    }
    false
}

/// The state of the mouse buttons in the current frame, and the mouse position.
pub struct MouseState {
    pressed: u8,
    down: u8,
    released: u8,
    position: (i16, i16),
    delta: (i16, i16),
}

impl MouseState {
    /// A button pressed in this frame is down.
    #[verifier::type_invariant]
    spec fn inv(self) -> bool {
        forall|i: u8| i < 8 ==> #[trigger] has_bit(self.pressed, i) ==> has_bit(self.down, i)
    }

    /// Whether the button with bit `i` was pressed in this frame, is down, and was released
    /// in this frame.
    pub closed spec fn flags(&self, i: u8) -> (bool, bool, bool) {
        (has_bit(self.pressed, i), has_bit(self.down, i), has_bit(self.released, i))
    }

    /// The mouse position.
    pub closed spec fn position_spec(&self) -> (i16, i16) {
        self.position
    }

    /// How far the mouse moved in the last frame.
    pub closed spec fn delta_spec(&self) -> (i16, i16) {
        self.delta
    }

    /// No button pressed, down or released, at position zero.
    pub fn new() -> (r: Self)
        ensures
            forall|i: u8| i < 8 ==> #[trigger] r.flags(i) == (false, false, false),
            r.position_spec() == (0i16, 0i16),
            r.delta_spec() == (0i16, 0i16),
            pressed_are_down(r),
    {
        proof {
            lemma_no_bits();
        }
        let r = MouseState { pressed: 0, down: 0, released: 0, position: (0, 0), delta: (0, 0) };
        proof {
            use_type_invariant(&r);
        }
        r
    }

    /// Start a new frame: nothing is pressed or released in it yet; what is down stays down.
    pub fn prepare_for_update(&mut self)
        ensures
            forall|i: u8|
                i < 8 ==> #[trigger] final(self).flags(i) == (false, old(self).flags(i).1, false),
            final(self).position_spec() == old(self).position_spec(),
            final(self).delta_spec() == old(self).delta_spec(),
            pressed_are_down(*final(self)),
    {
        proof {
            lemma_no_bits();
        }
        self.pressed = 0;
        self.released = 0;
        proof {
            use_type_invariant(&*self);
        }
    }

    /// Mark the button with index `idx` pressed, and down.
    pub fn press(&mut self, idx: usize)
        requires
            idx < 8,
        ensures
            final(self).flags(idx as u8) == (true, true, old(self).flags(idx as u8).2),
            forall|j: u8|
                j < 8 && j != idx ==> #[trigger] final(self).flags(j) == old(self).flags(j),
            final(self).position_spec() == old(self).position_spec(),
            final(self).delta_spec() == old(self).delta_spec(),
            pressed_are_down(*final(self)),
    {
        proof {
            use_type_invariant(&*self);
        }
        let i = idx as u8;
        proof {
            lemma_set_bit(self.pressed, i);
            lemma_set_bit(self.down, i);
        }
        let mask: u8 = 1u8 << i;
        let pressed = self.pressed | mask;
        let down = self.down | mask;
        *self = MouseState { pressed, down, released: self.released, position: self.position, delta: self.delta };
        proof {
            use_type_invariant(&*self);
        }
    }

    /// Mark the button with index `idx` released, and no longer pressed or down.
    pub fn release(&mut self, idx: usize)
        requires
            idx < 8,
        ensures
            final(self).flags(idx as u8) == (false, false, true),
            forall|j: u8|
                j < 8 && j != idx ==> #[trigger] final(self).flags(j) == old(self).flags(j),
            final(self).position_spec() == old(self).position_spec(),
            final(self).delta_spec() == old(self).delta_spec(),
            pressed_are_down(*final(self)),
    {
        proof {
            use_type_invariant(&*self);
        }
        let i = idx as u8;
        proof {
            lemma_clear_bit(self.pressed, i);
            lemma_clear_bit(self.down, i);
            lemma_set_bit(self.released, i);
        }
        let mask: u8 = 1u8 << i;
        let pressed = self.pressed & !mask;
        let down = self.down & !mask;
        let released = self.released | mask;
        *self = MouseState { pressed, down, released, position: self.position, delta: self.delta };
        proof {
            use_type_invariant(&*self);
        }
    }

    /// The state of a button.
    pub fn get_button_state(&self, button: MouseButton) -> (r: ButtonState)
        ensures
            r == state_of(self.flags(button_index(button))),
    {
        let mask: u8 = 1u8 << (button.index() as u8);
        if self.pressed & mask != 0 {
            ButtonState::Pressed
        } else if self.down & mask != 0 {
            ButtonState::Down
        } else if self.released & mask != 0 {
            ButtonState::Released
        } else {
            ButtonState::Up
        }
    }

    /// Was the button released in this frame?
    pub fn is_released(&self, button: MouseButton) -> (r: bool)
        ensures
            r == self.flags(button_index(button)).2,
    {
        let mask: u8 = 1u8 << (button.index() as u8);
        self.released & mask != 0
    }

    /// The mouse position.
    pub fn position(&self) -> (r: (i16, i16))
        ensures
            r == self.position_spec(),
    {
        self.position
    }

    /// How far the mouse moved in the last frame.
    pub fn delta(&self) -> (r: (i16, i16))
        ensures
            r == self.delta_spec(),
    {
        self.delta
    }

    /// Move the mouse to `pos`: the delta is the way from the old position.
    pub fn move_to(&mut self, pos: (i16, i16))
        requires
            i16::MIN <= pos.0 - old(self).position_spec().0 <= i16::MAX,
            i16::MIN <= pos.1 - old(self).position_spec().1 <= i16::MAX,
        ensures
            final(self).position_spec() == pos,
            final(self).delta_spec() == (
                (pos.0 - old(self).position_spec().0) as i16,
                (pos.1 - old(self).position_spec().1) as i16,
            ),
            forall|i: u8| i < 8 ==> #[trigger] final(self).flags(i) == old(self).flags(i),
            pressed_are_down(*final(self)),
    {
        proof {
            use_type_invariant(&*self);
        }
        self.delta = (pos.0 - self.position.0, pos.1 - self.position.1);
        self.position = pos;
        proof {
            use_type_invariant(&*self);
        }
    }

    /// Apply the button changes of a frame, in order: only the last change of each button
    /// takes effect.  The buttons that changed are handed back, the one changed last first.
    pub fn apply_button_changes(&mut self, changes: &[(MouseButton, bool)]) -> (r: Vec<MouseButton>)
        ensures
            r@ == changed_buttons(changes@),
            forall|b: MouseButton|
                #[trigger] final(self).flags(button_index(b)) == after_change(
                    old(self).flags(button_index(b)),
                    last_change(changes@, b),
                ),
            forall|j: u8| 5 <= j < 8 ==> #[trigger] final(self).flags(j) == old(self).flags(j),
            final(self).position_spec() == old(self).position_spec(),
            final(self).delta_spec() == old(self).delta_spec(),
            pressed_are_down(*final(self)),
    {
        let ghost s = changes@;
        let n = changes.len();
        let mut order: Vec<MouseButton> = Vec::new();
        let mut k = n;
        assert(s.subrange(n as int, n as int) =~= Seq::<(MouseButton, bool)>::empty());
        while k > 0
            invariant
                k <= n,
                n == s.len(),
                s == changes@,
                order@ == changed_buttons(s.subrange(k as int, n as int)),
                forall|b: MouseButton|
                    #[trigger] self.flags(button_index(b)) == after_change(
                        old(self).flags(button_index(b)),
                        last_change(s.subrange(k as int, n as int), b),
                    ),
                forall|j: u8| 5 <= j < 8 ==> #[trigger] self.flags(j) == old(self).flags(j),
                self.position_spec() == old(self).position_spec(),
                self.delta_spec() == old(self).delta_spec(),
            decreases k,
        {
            let ghost rest = s.subrange(k as int, n as int);
            k = k - 1;
            let ghost t = s.subrange(k as int, n as int);
            proof {
                assert(t.drop_first() =~= rest);
                assert(t[0] == s[k as int]);
            }
            let (button, pressed) = changes[k];
            proof {
                lemma_changed_buttons_contains(rest, button);
            }
            if !contains_button(&order, button) {
                if pressed {
                    self.press(button.index());
                } else {
                    self.release(button.index());
                }
                order.push(button);
                proof {
                    assert forall|b: MouseButton| #[trigger]
                        self.flags(button_index(b)) == after_change(
                            old(self).flags(button_index(b)),
                            last_change(t, b),
                        ) by {
                        if b != button {
                            assert(button_index(b) != button_index(button));
                        }
                    }
                }
            } else {
                proof {
                    assert forall|b: MouseButton| #[trigger]
                        last_change(t, b) == last_change(rest, b) by {}
                }
            }
        }
        proof {
            assert(s.subrange(0, n as int) =~= s);
            use_type_invariant(&*self);
        }
        order
    }
}

/// Every button pressed in this frame is down.
pub open spec fn pressed_are_down(m: MouseState) -> bool {
    forall|i: u8| i < 8 ==> (#[trigger] m.flags(i)).0 ==> m.flags(i).1
}

/// A button just pressed reads as pressed and is down, and one just released reads as
/// released and is up, whatever happened to it earlier in the frame.
pub proof fn law_press_release_read_back(f: (bool, bool, bool))
    ensures
        state_of(after_change(f, Some(true))) == ButtonState::Pressed,
        state_of(after_change(f, Some(false))) == ButtonState::Released,
{
}

/// Starting a new frame turns a pressed button into a down one and a released button into
/// an up one: a button is down in the new frame exactly when it was down in the last one.
pub proof fn law_next_frame(f: (bool, bool, bool))
    requires
        f.0 ==> f.1,
    ensures
        state_of((false, f.1, false)) == if state_of(f) == ButtonState::Pressed || state_of(f)
            == ButtonState::Down {
            ButtonState::Down
        } else {
            ButtonState::Up
        },
{
}

} // verus!
