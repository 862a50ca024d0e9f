//! Gamepad buttons and the down state of a generic gamepad's buttons.
use vstd::prelude::*;
use crate::mouse::{last_change, changed_buttons, lemma_changed_buttons_contains};

verus! {

/// Gamepad button
#[derive(Clone, Copy, PartialEq, Eq, Debug, Structural)]
pub enum GamepadButton {
    /// South face button e.g. A on xbox, cross on PS.
    FaceBottom,
    /// East face button e.g. B on xbox, circle on PS.
    FaceRight,
    /// West face button e.g. X on xbox, square on PS.
    FaceLeft,
    /// North face button e.g. Y on xbox, triangle on PS.
    FaceTop,
    /// Left bumper
    LeftBumper,
    /// Right bumper
    RightBumper,
    /// Left trigger button
    LeftTrigger,
    /// Right trigger button
    RightTrigger,
    /// Left special button (e.g. menu, etc)
    LeftMenu,
    /// Right special button (e.g. menu, etc)
    RightMenu,
    /// Left joystick button
    LeftThumbstick,
    /// Right joystick button
    RightThumbsstick,
    /// Guide button
    Guide,
}

/// The number of gamepad buttons.
pub const GAMEPAD_BUTTON_COUNT: usize = 13;

/// The index of a button, in declaration order.
pub open spec fn gamepad_button_index(b: GamepadButton) -> u16 {
    match b {
        GamepadButton::FaceBottom => 0,
        GamepadButton::FaceRight => 1,
        GamepadButton::FaceLeft => 2,
        GamepadButton::FaceTop => 3,
        GamepadButton::LeftBumper => 4,
        GamepadButton::RightBumper => 5,
        GamepadButton::LeftTrigger => 6,
        GamepadButton::RightTrigger => 7,
        GamepadButton::LeftMenu => 8,
        GamepadButton::RightMenu => 9,
        GamepadButton::LeftThumbstick => 10,
        GamepadButton::RightThumbsstick => 11,
        GamepadButton::Guide => 12,
    }
}

/// The name a button is displayed with.
pub open spec fn gamepad_button_name(b: GamepadButton) -> Seq<char> {
    match b {
        GamepadButton::FaceBottom => "south"@,
        GamepadButton::FaceRight => "east"@,
        GamepadButton::FaceLeft => "west"@,
        GamepadButton::FaceTop => "north"@,
        GamepadButton::LeftBumper => "left bumper"@,
        GamepadButton::RightBumper => "right bumper"@,
        GamepadButton::LeftTrigger => "left trigger button"@,
        GamepadButton::RightTrigger => "right trigger button"@,
        GamepadButton::LeftMenu => "left menu"@,
        GamepadButton::RightMenu => "right menu"@,
        GamepadButton::LeftThumbstick => "left stick button"@,
        GamepadButton::RightThumbsstick => "right stick button"@,
        GamepadButton::Guide => "guide button"@,
    }
}

impl GamepadButton {
    /// The index of the button, in declaration order.
    pub fn index(self) -> (r: usize)
        ensures
            r == gamepad_button_index(self),
    {
        match self {
            GamepadButton::FaceBottom => 0,
            GamepadButton::FaceRight => 1,
            GamepadButton::FaceLeft => 2,
            GamepadButton::FaceTop => 3,
            GamepadButton::LeftBumper => 4,
            GamepadButton::RightBumper => 5,
            GamepadButton::LeftTrigger => 6,
            GamepadButton::RightTrigger => 7,
            GamepadButton::LeftMenu => 8,
            GamepadButton::RightMenu => 9,
            GamepadButton::LeftThumbstick => 10,
            GamepadButton::RightThumbsstick => 11,
            GamepadButton::Guide => 12,
        }
    }

    /// The button with the given index, if there is one.
    pub fn from_idx(idx: usize) -> (r: Option<GamepadButton>)
        ensures
            r matches Some(b) ==> gamepad_button_index(b) == idx,
            r is None <==> idx >= GAMEPAD_BUTTON_COUNT,
    {
        match idx {
            0 => Some(GamepadButton::FaceBottom),
            1 => Some(GamepadButton::FaceRight),
            2 => Some(GamepadButton::FaceLeft),
            3 => Some(GamepadButton::FaceTop),
            4 => Some(GamepadButton::LeftBumper),
            5 => Some(GamepadButton::RightBumper),
            6 => Some(GamepadButton::LeftTrigger),
            7 => Some(GamepadButton::RightTrigger),
            8 => Some(GamepadButton::LeftMenu),
            9 => Some(GamepadButton::RightMenu),
            10 => Some(GamepadButton::LeftThumbstick),
            11 => Some(GamepadButton::RightThumbsstick),
            12 => Some(GamepadButton::Guide),
            _ => None,
        }
    }

    /// The name of the button.
    pub fn name(&self) -> (r: &'static str)
        ensures
            r@ == gamepad_button_name(*self),
    {
        match *self {
            GamepadButton::FaceBottom => "south",
            GamepadButton::FaceRight => "east",
            GamepadButton::FaceLeft => "west",
            GamepadButton::FaceTop => "north",
            GamepadButton::LeftBumper => "left bumper",
            GamepadButton::RightBumper => "right bumper",
            GamepadButton::LeftTrigger => "left trigger button",
            GamepadButton::RightTrigger => "right trigger button",
            GamepadButton::LeftMenu => "left menu",
            GamepadButton::RightMenu => "right menu",
            GamepadButton::LeftThumbstick => "left stick button",
            GamepadButton::RightThumbsstick => "right stick button",
            GamepadButton::Guide => "guide button",
        }
    }
}

/// Going from a button to its index and back gives the button.
pub proof fn law_gamepad_button_index_round_trip(b: GamepadButton)
    ensures
        gamepad_button_index(b) < GAMEPAD_BUTTON_COUNT,
        forall|c: GamepadButton| gamepad_button_index(c) == gamepad_button_index(b) ==> c == b,
{
}

/// Is bit `i` of `x` set?
pub open spec fn has_bit16(x: u16, i: u16) -> bool {
    x & (1u16 << i) != 0
}

proof fn lemma_set_bit16(x: u16, i: u16)
    by (bit_vector)
    requires
        i < 16,
    ensures
        forall|j: u16| j < 16 ==> #[trigger] has_bit16(x | (1u16 << i), j) == (j == i || has_bit16(x, j)),
{
}

proof fn lemma_clear_bit16(x: u16, i: u16)
    by (bit_vector)
    requires
        i < 16,
    ensures
        forall|j: u16|
            j < 16 ==> #[trigger] has_bit16(x & !(1u16 << i), j) == (j != i && has_bit16(x, j)),
{
}

proof fn lemma_no_bits16()
    by (bit_vector)
    ensures
        forall|j: u16| j < 16 ==> !#[trigger] has_bit16(0u16, j),
{
}

/// Does `v` hold `b`?
fn contains_gamepad_button(v: &Vec<GamepadButton>, b: GamepadButton) -> (r: bool)
    ensures
        r == v@.contains(b),
{
    let mut i: usize = 0;
    while i < v.len()
        invariant
            i <= v@.len(),
            forall|j: int| 0 <= j < i ==> v@[j] != b,
        decreases v@.len() - i,
    {
        if v[i] == b {
            return true;
        }
        i = i + 1;
    }
    false
}

/// Which buttons of a gamepad are down.
pub struct GamepadButtons {
    down: u16,
}

impl GamepadButtons {
    /// Is the button down?
    pub closed spec fn down_spec(&self, b: GamepadButton) -> bool {
        has_bit16(self.down, gamepad_button_index(b))
    }

    /// No button down.
    pub fn new() -> (r: Self)
        ensures
            forall|b: GamepadButton| !#[trigger] r.down_spec(b),
    {
        proof {
            lemma_no_bits16();
        }
        GamepadButtons { down: 0 }
    }

    /// Is the button down?
    pub fn is_down(&self, button: GamepadButton) -> (r: bool)
        ensures
            r == self.down_spec(button),
    {
        let mask: u16 = 1u16 << (button.index() as u16);
        self.down & mask != 0
    }

    /// Set whether the button is down.
    pub fn set(&mut self, button: GamepadButton, down: bool)
        ensures
            final(self).down_spec(button) == down,
            forall|c: GamepadButton| c != button ==> #[trigger] final(self).down_spec(c) == old(self).down_spec(c),
    {
        let i: u16 = button.index() as u16;
        proof {
            lemma_set_bit16(self.down, i);
            lemma_clear_bit16(self.down, i);
        }
        let mask: u16 = 1u16 << i;
        if down {
            self.down = self.down | mask;
        } else {
            self.down = self.down & !mask;
        }
        proof {
            assert forall|c: GamepadButton| c != button implies #[trigger] self.down_spec(c) == old(self).down_spec(c) by {
                assert(gamepad_button_index(c) != gamepad_button_index(button));
            }
        }
    }

    /// Apply the button changes of a frame: of the changes of one button only the last one
    /// takes effect, which sets whether it is down.  The buttons that changed are handed
    /// back, the one changed last first.
    pub fn apply_button_changes(&mut self, changes: &[(GamepadButton, bool)]) -> (r: Vec<GamepadButton>)
        ensures
            r@ == changed_buttons(changes@),
            forall|b: GamepadButton| #[trigger] final(self).down_spec(b) == match last_change(changes@, b) {
                Some(p) => p,
                None => old(self).down_spec(b),
            },
    {
        let ghost s = changes@;
        let n = changes.len();
        let mut order: Vec<GamepadButton> = Vec::new();
        let mut k = n;
        assert(s.subrange(n as int, n as int) =~= Seq::<(GamepadButton, bool)>::empty());
        while k > 0
            invariant
                k <= n,
                n == s.len(),
                s == changes@,
                order@ == changed_buttons(s.subrange(k as int, n as int)),
                forall|b: GamepadButton| #[trigger] self.down_spec(b) == match last_change(s.subrange(k as int, n as int), b) {
                    Some(p) => p,
                    None => old(self).down_spec(b),
                },
            decreases k,
        {
            let ghost rest = s.subrange(k as int, n as int);
            k = k - 1;
            let ghost t = s.subrange(k as int, n as int);
            proof {
                assert(t.drop_first() =~= rest);
                assert(t[0] == s[k as int]);
            }
            let (button, pressed) = changes[k];
            proof {
                lemma_changed_buttons_contains(rest, button);
            }
            if !contains_gamepad_button(&order, button) {
                self.set(button, pressed);
                order.push(button);
            } else {
                proof {
                    assert forall|b: GamepadButton| #[trigger] last_change(t, b) == last_change(rest, b) by {}
                }
            }
        }
        proof {
            assert(s.subrange(0, n as int) =~= s);
        }
        order
    }
}

} // verus!
