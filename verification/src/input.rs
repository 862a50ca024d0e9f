//! Input handling rules: device types and what they support, hat switches, trigger states
//! and control schemes.
use vstd::prelude::*;
use crate::text::bytes_of;
use crate::path_component::str_eq;
use crate::name_filter::sbytes;

verus! {

/// Input device handle.
#[derive(Clone, Copy, PartialEq, Eq, Debug, Structural)]
pub struct Handle {
    pub id: u8,
    pub lifetime: u8,
}

/// Gamepad feature flag: a touchpad.
pub const GAMEPAD_TOUCH: u8 = 0x1;
/// Gamepad feature flag: a keyboard (often an accessory).
pub const GAMEPAD_KEYBOARD: u8 = 0x2;
/// Gamepad feature flag: a gyroscope.
pub const GAMEPAD_GYRO: u8 = 0x4;
/// Gamepad feature flag: an accelerometer.
pub const GAMEPAD_ACCEL: u8 = 0x8;

/// The features of a gamepad, as a set of flags.
#[derive(Clone, Copy, PartialEq, Eq, Debug, Structural)]
pub struct GamepadFeatures(pub u8);

impl GamepadFeatures {
    /// All flags of `other` are set in `self`.
    pub fn contains(self, other: GamepadFeatures) -> (r: bool)
        ensures
            r == (self.0 & other.0 == other.0),
    {
        self.0 & other.0 == other.0
    }
}

/// Device type
#[derive(Clone, Debug)]
pub enum DeviceType {
    /// Mouse.
    Mouse,
    /// Keyboard.
    Keyboard,
    /// Gamepad.
    Gamepad(GamepadFeatures),
    /// Touch device.
    Touch,
    /// Arcade stick.
    ArcadeStick,
    /// Flight stick.
    FlightStick,
    /// Racing wheel.
    RacingWheel,
    /// Other device.
    Other(String),
}

/// A device type, as values.
pub enum DeviceTypeView {
    Mouse,
    Keyboard,
    Gamepad(u8),
    Touch,
    ArcadeStick,
    FlightStick,
    RacingWheel,
    Other(Seq<u8>),
}

impl View for DeviceType {
    type V = DeviceTypeView;

    open spec fn view(&self) -> DeviceTypeView {
        match self {
            DeviceType::Mouse => DeviceTypeView::Mouse,
            DeviceType::Keyboard => DeviceTypeView::Keyboard,
            DeviceType::Gamepad(f) => DeviceTypeView::Gamepad(f.0),
            DeviceType::Touch => DeviceTypeView::Touch,
            DeviceType::ArcadeStick => DeviceTypeView::ArcadeStick,
            DeviceType::FlightStick => DeviceTypeView::FlightStick,
            DeviceType::RacingWheel => DeviceTypeView::RacingWheel,
            DeviceType::Other(s) => DeviceTypeView::Other(sbytes(*s)),
        }
    }
}

/// Do device types match, support a common lower denominator, or neither.
#[derive(Clone, Copy, PartialEq, Eq, Debug, Structural)]
pub enum DeviceTypeMatchSupport {
    /// Device does not match.
    NoMatch,
    /// Device is not an exact match, but a device that supports the required features.
    Support,
    /// Device is an exact match.
    Match,
}

/// A device of type `have` can stand in for one of type `want`: the same kind, and for a
/// gamepad, at least the wanted features.
pub open spec fn supports_spec(have: DeviceTypeView, want: DeviceTypeView) -> bool {
    match (want, have) {
        (DeviceTypeView::Gamepad(w), DeviceTypeView::Gamepad(h)) => h & w == w,
        (DeviceTypeView::Other(w), DeviceTypeView::Other(h)) => w == h,
        (DeviceTypeView::Mouse, DeviceTypeView::Mouse) => true,
        (DeviceTypeView::Keyboard, DeviceTypeView::Keyboard) => true,
        (DeviceTypeView::Touch, DeviceTypeView::Touch) => true,
        (DeviceTypeView::ArcadeStick, DeviceTypeView::ArcadeStick) => true,
        (DeviceTypeView::FlightStick, DeviceTypeView::FlightStick) => true,
        (DeviceTypeView::RacingWheel, DeviceTypeView::RacingWheel) => true,
        _ => false,
    }
}

/// How well a device of type `have` fits the wanted type.
pub open spec fn match_support_spec(have: DeviceTypeView, want: DeviceTypeView) -> DeviceTypeMatchSupport {
    if have == want {
        DeviceTypeMatchSupport::Match
    } else if supports_spec(have, want) {
        DeviceTypeMatchSupport::Support
    } else {
        DeviceTypeMatchSupport::NoMatch
    }
}

/// Equality of two device types.
pub fn device_type_eq(a: &DeviceType, b: &DeviceType) -> (r: bool)
    ensures
        r == (a@ == b@),
{
    match (a, b) {
        (DeviceType::Mouse, DeviceType::Mouse) => true,
        (DeviceType::Keyboard, DeviceType::Keyboard) => true,
        (DeviceType::Gamepad(x), DeviceType::Gamepad(y)) => x.0 == y.0,
        (DeviceType::Touch, DeviceType::Touch) => true,
        (DeviceType::ArcadeStick, DeviceType::ArcadeStick) => true,
        (DeviceType::FlightStick, DeviceType::FlightStick) => true,
        (DeviceType::RacingWheel, DeviceType::RacingWheel) => true,
        (DeviceType::Other(x), DeviceType::Other(y)) => str_eq(x.as_str(), y.as_str()),
        _ => false,
    }
}

impl DeviceType {
    /// Check if a device type either matches or is supported by the requested device type.
    pub fn match_or_supports(&self, wanted_dev_type: &DeviceType) -> (r: DeviceTypeMatchSupport)
        ensures
            r == match_support_spec(self@, wanted_dev_type@),
    {
        if device_type_eq(self, wanted_dev_type) {
            DeviceTypeMatchSupport::Match
        } else if match wanted_dev_type {
            DeviceType::Mouse => matches!(self, DeviceType::Mouse),
            DeviceType::Keyboard => matches!(self, DeviceType::Keyboard),
            DeviceType::Gamepad(features) => match self {
                DeviceType::Gamepad(self_features) => self_features.contains(*features),
                _ => false,
            },
            DeviceType::Touch => matches!(self, DeviceType::Touch),
            DeviceType::ArcadeStick => matches!(self, DeviceType::ArcadeStick),
            DeviceType::FlightStick => matches!(self, DeviceType::FlightStick),
            DeviceType::RacingWheel => matches!(self, DeviceType::RacingWheel),
            DeviceType::Other(name) => match self {
                DeviceType::Other(self_name) => str_eq(name.as_str(), self_name.as_str()),
                _ => false,
            },
        } {
            DeviceTypeMatchSupport::Support
        } else {
            DeviceTypeMatchSupport::NoMatch
        }
    }
}

/// The position of a hat switch (a directional pad).
#[derive(Clone, Copy, PartialEq, Eq, Debug, Structural)]
pub enum HatSwitch {
    /// Hat switch is in the neutral position
    Neutral,
    /// Hat switch points up
    Up,
    /// Hat switch points up and right
    UpRight,
    /// Hat switch points right
    Right,
    /// Hat switch points down and right
    DownRight,
    /// Hat switch points down
    Down,
    /// Down and left are pressed
    DownLeft,
    /// Hat switch points left
    Left,
    /// Hat switch points up and left
    UpLeft,
}

impl HatSwitch {
    /// Check if the down direction is down.
    pub fn is_bottom_down(&self) -> (r: bool)
        ensures
            r == (*self == HatSwitch::DownRight || *self == HatSwitch::Down || *self
                == HatSwitch::DownLeft),
    {
        matches!(self, HatSwitch::DownRight | HatSwitch::Down | HatSwitch::DownLeft)
    }

    /// Check if the right direction is down.
    pub fn is_right_down(&self) -> (r: bool)
        ensures
            r == (*self == HatSwitch::UpRight || *self == HatSwitch::Right || *self
                == HatSwitch::DownRight),
    {
        matches!(self, HatSwitch::UpRight | HatSwitch::Right | HatSwitch::DownRight)
    }

    /// Check if the left direction is down.
    pub fn is_left_down(&self) -> (r: bool)
        ensures
            r == (*self == HatSwitch::DownLeft || *self == HatSwitch::Left || *self
                == HatSwitch::UpLeft),
    {
        matches!(self, HatSwitch::DownLeft | HatSwitch::Left | HatSwitch::UpLeft)
    }

    /// Check if the up direction is down.
    pub fn is_up_down(&self) -> (r: bool)
        ensures
            r == (*self == HatSwitch::UpRight || *self == HatSwitch::Up || *self
                == HatSwitch::UpLeft),
    {
        matches!(self, HatSwitch::UpRight | HatSwitch::Up | HatSwitch::UpLeft)
    }

    /// The position four direction buttons stand for; a combination no hat switch can make
    /// (opposite directions together) is neutral.
    pub fn from_4_button(up: bool, down: bool, left: bool, right: bool) -> (r: Self)
        ensures
            r == hat_from_4_spec(up, down, left, right),
    {
        match (up, down, left, right) {
            (false, false, false, false) => Self::Neutral,
            (true, false, false, false) => Self::Up,
            (true, false, false, true) => Self::UpRight,
            (false, false, false, true) => Self::Right,
            (false, true, false, true) => Self::DownRight,
            (false, true, false, false) => Self::Down,
            (false, true, true, false) => Self::DownLeft,
            (false, false, true, false) => Self::Left,
            (true, false, true, false) => Self::UpLeft,
            _ => Self::Neutral,
        }
    }

    /// The position eight direction buttons stand for: the one pressed button, or neutral
    /// unless exactly one is pressed.
    pub fn from_8_button(
        up: bool,
        up_right: bool,
        right: bool,
        down_right: bool,
        down: bool,
        down_left: bool,
        left: bool,
        up_left: bool,
    ) -> (r: Self)
        ensures
            r == hat_from_8_spec(up, up_right, right, down_right, down, down_left, left, up_left),
    {
        match (up, up_right, right, down_right, down, down_left, left, up_left) {
            (true, false, false, false, false, false, false, false) => Self::Up,
            (false, true, false, false, false, false, false, false) => Self::UpRight,
            (false, false, true, false, false, false, false, false) => Self::Right,
            (false, false, false, true, false, false, false, false) => Self::DownRight,
            (false, false, false, false, true, false, false, false) => Self::Down,
            (false, false, false, false, false, true, false, false) => Self::DownLeft,
            (false, false, false, false, false, false, true, false) => Self::Left,
            (false, false, false, false, false, false, false, true) => Self::UpLeft,
            _ => Self::Neutral,
        }
    }
}

/// The position four direction buttons stand for: up or down and left or right combine into
/// a diagonal; opposite directions pressed together give neutral.
pub open spec fn hat_from_4_spec(up: bool, down: bool, left: bool, right: bool) -> HatSwitch {
    if (up && down) || (left && right) {
        HatSwitch::Neutral
    } else if up {
        if left {
            HatSwitch::UpLeft
        } else if right {
            HatSwitch::UpRight
        } else {
            HatSwitch::Up
        }
    } else if down {
        if left {
            HatSwitch::DownLeft
        } else if right {
            HatSwitch::DownRight
        } else {
            HatSwitch::Down
        }
    } else if left {
        HatSwitch::Left
    } else if right {
        HatSwitch::Right
    } else {
        HatSwitch::Neutral
    }
}

/// The number of `true`s among eight flags.
pub open spec fn count8(a: bool, b: bool, c: bool, d: bool, e: bool, f: bool, g: bool, h: bool) -> int {
    (if a { 1int } else { 0 }) + (if b { 1int } else { 0 }) + (if c { 1int } else { 0 }) + (if d {
        1int
    } else {
        0
    }) + (if e { 1int } else { 0 }) + (if f { 1int } else { 0 }) + (if g { 1int } else { 0 }) + (
    if h {
        1int
    } else {
        0
    })
}

/// The position eight direction buttons stand for.
pub open spec fn hat_from_8_spec(
    up: bool,
    up_right: bool,
    right: bool,
    down_right: bool,
    down: bool,
    down_left: bool,
    left: bool,
    up_left: bool,
) -> HatSwitch {
    if count8(up, up_right, right, down_right, down, down_left, left, up_left) != 1 {
        HatSwitch::Neutral
    } else if up {
        HatSwitch::Up
    } else if up_right {
        HatSwitch::UpRight
    } else if right {
        HatSwitch::Right
    } else if down_right {
        HatSwitch::DownRight
    } else if down {
        HatSwitch::Down
    } else if down_left {
        HatSwitch::DownLeft
    } else if left {
        HatSwitch::Left
    } else {
        HatSwitch::UpLeft
    }
}

/// The index of a hat switch position, in declaration order.
pub open spec fn hat_index(h: HatSwitch) -> u8 {
    match h {
        HatSwitch::Neutral => 0,
        HatSwitch::Up => 1,
        HatSwitch::UpRight => 2,
        HatSwitch::Right => 3,
        HatSwitch::DownRight => 4,
        HatSwitch::Down => 5,
        HatSwitch::DownLeft => 6,
        HatSwitch::Left => 7,
        HatSwitch::UpLeft => 8,
    }
}

/// The name a hat switch position is displayed with.
pub open spec fn hat_name(h: HatSwitch) -> Seq<char> {
    match h {
        HatSwitch::Neutral => "neutral"@,
        HatSwitch::Up => "up"@,
        HatSwitch::UpRight => "up-right"@,
        HatSwitch::Right => "right"@,
        HatSwitch::DownRight => "down-right"@,
        HatSwitch::Down => "down"@,
        HatSwitch::DownLeft => "down-left"@,
        HatSwitch::Left => "left"@,
        HatSwitch::UpLeft => "up-left"@,
    }
}

impl HatSwitch {
    /// The index of the position, in declaration order.
    pub fn index(self) -> (r: usize)
        ensures
            r == hat_index(self),
    {
        match self {
            HatSwitch::Neutral => 0,
            HatSwitch::Up => 1,
            HatSwitch::UpRight => 2,
            HatSwitch::Right => 3,
            HatSwitch::DownRight => 4,
            HatSwitch::Down => 5,
            HatSwitch::DownLeft => 6,
            HatSwitch::Left => 7,
            HatSwitch::UpLeft => 8,
        }
    }

    /// The position with the given index, if there is one.
    pub fn from_idx(idx: usize) -> (r: Option<HatSwitch>)
        ensures
            r matches Some(h) ==> hat_index(h) == idx,
            r is None <==> idx >= 9,
    {
        match idx {
            0 => Some(HatSwitch::Neutral),
            1 => Some(HatSwitch::Up),
            2 => Some(HatSwitch::UpRight),
            3 => Some(HatSwitch::Right),
            4 => Some(HatSwitch::DownRight),
            5 => Some(HatSwitch::Down),
            6 => Some(HatSwitch::DownLeft),
            7 => Some(HatSwitch::Left),
            8 => Some(HatSwitch::UpLeft),
            _ => None,
        }
    }

    /// The name of the position.
    pub fn name(&self) -> (r: &'static str)
        ensures
            r@ == hat_name(*self),
    {
        match *self {
            HatSwitch::Neutral => "neutral",
            HatSwitch::Up => "up",
            HatSwitch::UpRight => "up-right",
            HatSwitch::Right => "right",
            HatSwitch::DownRight => "down-right",
            HatSwitch::Down => "down",
            HatSwitch::DownLeft => "down-left",
            HatSwitch::Left => "left",
            HatSwitch::UpLeft => "up-left",
        }
    }
}

/// Reading four buttons from a position and back gives the position: every position is made
/// by exactly the buttons it reports as down.
pub proof fn law_hat_4_round_trip(h: HatSwitch)
    ensures
        hat_from_4_spec(
            h == HatSwitch::UpRight || h == HatSwitch::Up || h == HatSwitch::UpLeft,
            h == HatSwitch::DownRight || h == HatSwitch::Down || h == HatSwitch::DownLeft,
            h == HatSwitch::DownLeft || h == HatSwitch::Left || h == HatSwitch::UpLeft,
            h == HatSwitch::UpRight || h == HatSwitch::Right || h == HatSwitch::DownRight,
        ) == h,
{
}

/// The result of checking a trigger.
#[derive(Clone, Copy, PartialEq, Eq, Debug, Structural)]
pub enum TriggerResult {
    /// The trigger is idle
    Idle,
    /// The trigger is being processed
    Ongoing,
    /// The trigger has triggered
    Triggered,
}

/// The rank of a result: idle below ongoing below triggered.
pub open spec fn result_rank(r: TriggerResult) -> int {
    match r {
        TriggerResult::Idle => 0,
        TriggerResult::Ongoing => 1,
        TriggerResult::Triggered => 2,
    }
}

impl TriggerResult {
    /// Combine two results: the stronger one wins.
    pub fn bitor(self, rhs: Self) -> (r: Self)
        ensures
            result_rank(r) == if result_rank(self) >= result_rank(rhs) {
                result_rank(self)
            } else {
                result_rank(rhs)
            },
    {
        match self {
            TriggerResult::Idle => match rhs {
                TriggerResult::Idle => TriggerResult::Idle,
                TriggerResult::Ongoing => TriggerResult::Ongoing,
                TriggerResult::Triggered => TriggerResult::Triggered,
            },
            TriggerResult::Ongoing => match rhs {
                TriggerResult::Idle => TriggerResult::Ongoing,
                TriggerResult::Ongoing => TriggerResult::Ongoing,
                TriggerResult::Triggered => TriggerResult::Triggered,
            },
            TriggerResult::Triggered => TriggerResult::Triggered,
        }
    }
}

/// Trigger state flag: idle (no flag).
pub const TRIGGER_IDLE: u8 = 0x0;
/// Trigger state flag: the trigger has started processing.
pub const TRIGGER_STARTED: u8 = 0x1;
/// Trigger state flag: the trigger is ongoing.
pub const TRIGGER_ONGOING: u8 = 0x2;
/// Trigger state flag: the trigger was cancelled.
pub const TRIGGER_CANCELLED: u8 = 0x4;
/// Trigger state flag: the trigger has been triggered.
pub const TRIGGER_TRIGGERED: u8 = 0x8;
/// Trigger state flag: the trigger has completed.
pub const TRIGGER_COMPLETED: u8 = 0x10;

/// The state of a trigger, as a set of flags.
#[derive(Clone, Copy, PartialEq, Eq, Debug, Structural)]
pub struct TriggerState(pub u8);

/// The state a trigger is in, from its previous and its current result.
pub open spec fn trigger_state_spec(prev: TriggerResult, current: TriggerResult) -> u8 {
    match (prev, current) {
        (TriggerResult::Idle, TriggerResult::Idle) => TRIGGER_IDLE,
        (TriggerResult::Idle, TriggerResult::Ongoing) => TRIGGER_STARTED,
        (TriggerResult::Idle, TriggerResult::Triggered) => TRIGGER_STARTED | TRIGGER_TRIGGERED,
        (TriggerResult::Ongoing, TriggerResult::Idle) => TRIGGER_CANCELLED,
        (TriggerResult::Ongoing, TriggerResult::Ongoing) => TRIGGER_ONGOING,
        (TriggerResult::Ongoing, TriggerResult::Triggered) => TRIGGER_TRIGGERED,
        (TriggerResult::Triggered, TriggerResult::Idle) => TRIGGER_COMPLETED,
        (TriggerResult::Triggered, TriggerResult::Ongoing) => TRIGGER_ONGOING,
        (TriggerResult::Triggered, TriggerResult::Triggered) => TRIGGER_TRIGGERED,
    }
}

impl TriggerState {
    /// The state from the previous and the current result of a trigger.
    pub fn from_results(prev: TriggerResult, current: TriggerResult) -> (r: TriggerState)
        ensures
            r.0 == trigger_state_spec(prev, current),
    {
        match prev {
            TriggerResult::Idle => match current {
                TriggerResult::Idle => TriggerState(TRIGGER_IDLE),
                TriggerResult::Ongoing => TriggerState(TRIGGER_STARTED),
                TriggerResult::Triggered => TriggerState(TRIGGER_STARTED | TRIGGER_TRIGGERED),
            },
            TriggerResult::Ongoing => match current {
                TriggerResult::Idle => TriggerState(TRIGGER_CANCELLED),
                TriggerResult::Ongoing => TriggerState(TRIGGER_ONGOING),
                TriggerResult::Triggered => TriggerState(TRIGGER_TRIGGERED),
            },
            TriggerResult::Triggered => match current {
                TriggerResult::Idle => TriggerState(TRIGGER_COMPLETED),
                TriggerResult::Ongoing => TriggerState(TRIGGER_ONGOING),
                TriggerResult::Triggered => TriggerState(TRIGGER_TRIGGERED),
            },
        }
    }
}

/// Only started and triggered are ever set together: every trigger state is a single flag,
/// no flag, or started with triggered.
pub proof fn law_trigger_state_flags(prev: TriggerResult, current: TriggerResult)
    ensures
        ({
            let s = trigger_state_spec(prev, current);
            ||| s == TRIGGER_IDLE
            ||| s == TRIGGER_STARTED
            ||| s == TRIGGER_ONGOING
            ||| s == TRIGGER_CANCELLED
            ||| s == TRIGGER_TRIGGERED
            ||| s == TRIGGER_COMPLETED
            ||| s == (TRIGGER_STARTED | TRIGGER_TRIGGERED)
        }),
{
}

/// How a trigger takes part in deciding an action.
#[derive(Clone, Copy, PartialEq, Eq, Debug, Structural)]
pub enum TriggerType {
    /// Any explicit trigger needs to be triggered for the action to happen
    Explicit,
    /// All implicit triggers need to be triggered for the action to happen
    Implicit,
    /// If triggered, the action cannot happen
    Blocker,
}

/// The combined result of the triggers of an action.
#[derive(Clone, Copy, PartialEq, Eq, Debug, Structural)]
pub struct FinalTriggerResult {
    pub result: TriggerResult,
    pub all_implicit: bool,
    pub blocked: bool,
}

impl FinalTriggerResult {
    /// No trigger seen yet.
    pub fn new() -> (r: Self)
        ensures
            r == (FinalTriggerResult { result: TriggerResult::Idle, all_implicit: true, blocked: false }),
    {
        Self { result: TriggerResult::Idle, all_implicit: true, blocked: false }
    }

    /// Take the result of one more trigger into account.
    pub fn update(&mut self, ty: TriggerType, res: TriggerResult)
        ensures
            ty == TriggerType::Explicit ==> final(self).all_implicit == old(self).all_implicit
                && final(self).blocked == old(self).blocked && result_rank(final(self).result) == if result_rank(old(self).result) >= result_rank(res) {
                    result_rank(old(self).result)
                } else {
                    result_rank(res)
                },
            ty == TriggerType::Implicit ==> *final(self) == (FinalTriggerResult {
                all_implicit: old(self).all_implicit && res == TriggerResult::Triggered,
                ..*old(self)
            }),
            ty == TriggerType::Blocker ==> *final(self) == (FinalTriggerResult {
                blocked: old(self).blocked || res == TriggerResult::Triggered,
                ..*old(self)
            }),
    {
        match ty {
            TriggerType::Explicit => self.result = self.result.bitor(res),
            TriggerType::Implicit => self.all_implicit = self.all_implicit && res == TriggerResult::Triggered,
            TriggerType::Blocker => self.blocked = self.blocked || res == TriggerResult::Triggered,
        }
    }

    /// The result of the action: idle when blocked or when an implicit trigger did not
    /// trigger, else the strongest explicit result.
    pub fn to_result(self) -> (r: TriggerResult)
        ensures
            r == if self.blocked || !self.all_implicit {
                TriggerResult::Idle
            } else {
                self.result
            },
    {
        if self.blocked || !self.all_implicit {
            TriggerResult::Idle
        } else {
            self.result
        }
    }
}

/// An item of a control scheme.
pub enum SchemeItem {
    /// The device is required for this mapping
    Required(DeviceType),
    /// Either device can be used, but one is required to exists
    Either(Vec<DeviceType>),
    /// The device is optional for this mapping
    Optional(DeviceType),
}

/// The identifier of a control scheme.
#[derive(Clone, Debug)]
pub struct ControlSchemeID(pub String);

/// A control scheme: at most 64 items, the required ones first, then the either-or ones,
/// then the optional ones.
pub struct ControlScheme {
    pub identifier: ControlSchemeID,
    /// Items
    pub items: Vec<SchemeItem>,
    /// Index of the first `Optional` item (the number of required and either-or items), when
    /// it is not 0
    pub opt_start: Option<usize>,
}

/// The most items a control scheme can hold.
pub const MAX_SCHEME_ITEMS: usize = 64;

pub open spec fn is_required(x: SchemeItem) -> bool {
    x is Required
}

pub open spec fn is_either(x: SchemeItem) -> bool {
    x is Either
}

pub open spec fn is_optional(x: SchemeItem) -> bool {
    x is Optional
}

/// The items in scheme order: required, then either-or, then optional, each group in the
/// order it was given in.
pub open spec fn scheme_order(s: Seq<SchemeItem>) -> Seq<SchemeItem> {
    s.filter(|x: SchemeItem| is_required(x)) + s.filter(|x: SchemeItem| is_either(x)) + s.filter(
        |x: SchemeItem| is_optional(x),
    )
}

proof fn lemma_filter_push(s: Seq<SchemeItem>, x: SchemeItem, p: spec_fn(SchemeItem) -> bool)
    ensures
        s.push(x).filter(p) == if p(x) {
            s.filter(p).push(x)
        } else {
            s.filter(p)
        },
{
    reveal(Seq::filter);
    assert(s.push(x).drop_last() =~= s);
}

impl ControlScheme {
    /// Make a control scheme of 1 to 64 items, not all optional, in scheme order; the items
    /// come back unchanged as the error otherwise.
    pub fn new(identifier: ControlSchemeID, items: Vec<SchemeItem>) -> (r: Result<Self, Vec<SchemeItem>>)
        ensures
            r is Ok <==> (0 < items@.len() <= MAX_SCHEME_ITEMS && exists|i: int|
                0 <= i < items@.len() && !is_optional(#[trigger] items@[i])),
            r matches Err(e) ==> e@ == items@,
            r matches Ok(cs) ==> cs.items@ == scheme_order(items@) && cs.identifier == identifier
                && cs.opt_start == (if items@.filter(|x: SchemeItem| is_optional(x)).len()
                < items@.len() {
                Some((items@.len() - items@.filter(|x: SchemeItem| is_optional(x)).len()) as usize)
            } else {
                None::<usize>
            }),
    {
        let n = items.len();
        if n == 0 || n > MAX_SCHEME_ITEMS {
            return Err(items);
        }
        let mut any_needed = false;
        let mut i: usize = 0;
        while i < n
            invariant
                n == items@.len(),
                i <= n,
                any_needed == exists|j: int| 0 <= j < i && !is_optional(#[trigger] items@[j]),
            decreases n - i,
        {
            let needed = match &items[i] {
                SchemeItem::Optional(_) => false,
                _ => true,
            };
            if needed {
                any_needed = true;
            }
            i = i + 1;
        }
        if !any_needed {
            return Err(items);
        }
        let ghost orig = items@;
        let mut rest = items;
        let mut req: Vec<SchemeItem> = Vec::new();
        let mut eith: Vec<SchemeItem> = Vec::new();
        let mut opt: Vec<SchemeItem> = Vec::new();
        let ghost mut k: int = 0;
        while rest.len() > 0
            invariant
                0 <= k <= orig.len(),
                rest@ == orig.skip(k),
                req@ == orig.take(k).filter(|x: SchemeItem| is_required(x)),
                eith@ == orig.take(k).filter(|x: SchemeItem| is_either(x)),
                opt@ == orig.take(k).filter(|x: SchemeItem| is_optional(x)),
            decreases rest@.len(),
        {
            let x = rest.remove(0);
            proof {
                assert(x == orig[k]);
                assert(orig.take(k + 1) =~= orig.take(k).push(orig[k]));
                lemma_filter_push(orig.take(k), x, |x: SchemeItem| is_required(x));
                lemma_filter_push(orig.take(k), x, |x: SchemeItem| is_either(x));
                lemma_filter_push(orig.take(k), x, |x: SchemeItem| is_optional(x));
                assert(orig.skip(k + 1) =~= orig.skip(k).remove(0));
                k = k + 1;
            }
            match x {
                SchemeItem::Required(_) => req.push(x),
                SchemeItem::Either(_) => eith.push(x),
                SchemeItem::Optional(_) => opt.push(x),
            }
        }
        proof {
            assert(orig.take(k) =~= orig);
            lemma_partition_len(orig);
        }
        let n_opt = opt.len();
        req.append(&mut eith);
        req.append(&mut opt);
        let first_opt = n - n_opt;
        let opt_start = if first_opt > 0 {
            Some(first_opt)
        } else {
            None
        };
        Ok(ControlScheme { identifier, items: req, opt_start })
    }

    /// The identifier of the scheme.
    pub fn identifier(&self) -> (r: &ControlSchemeID)
        ensures
            r == &self.identifier,
    {
        &self.identifier
    }
}

/// The devices that fill the items of a control scheme.
pub struct ControlSet {
    pub scheme: ControlSchemeID,
    pub devices: Vec<Handle>,
}

impl ControlSet {
    /// The identifier of the scheme the set is for.
    pub fn scheme_identifier(&self) -> (r: &ControlSchemeID)
        ensures
            r == &self.scheme,
    {
        &self.scheme
    }

    /// The devices of the set.
    pub fn devices(&self) -> (r: &Vec<Handle>)
        ensures
            r@ == self.devices@,
    {
        &self.devices
    }

    /// Take the devices out of the set, leaving it without any.
    pub fn take_devices(&mut self) -> (r: Vec<Handle>)
        ensures
            r@ == old(self).devices@,
            final(self).devices@ == Seq::<Handle>::empty(),
            final(self).scheme == old(self).scheme,
    {
        let mut devices: Vec<Handle> = Vec::new();
        std::mem::swap(&mut devices, &mut self.devices);
        devices
    }
}

/// Every item is required, either-or or optional.
proof fn lemma_partition_len(s: Seq<SchemeItem>)
    ensures
        s.filter(|x: SchemeItem| is_required(x)).len() + s.filter(|x: SchemeItem| is_either(x)).len()
            + s.filter(|x: SchemeItem| is_optional(x)).len() == s.len(),
    decreases s.len(),
{
    reveal(Seq::filter);
    if s.len() > 0 {
        lemma_partition_len(s.drop_last());
    }
}

/// Battery state
#[derive(Clone, Copy, PartialEq, Eq, Debug, Structural)]
pub enum BatteryState {
    /// The battery is at an unknown state or has an error.
    Error,
    /// The battery is currently discharging.
    Discharging,
    /// The battery is currently charging.
    Charging,
    /// The battery is currently not discharging or charging, but staying at a constant level.
    Neutral,
    /// The battery is at an abnormal voltage.
    AbnormalVoltage,
    /// The battery is at an abnormal temperature.
    AbnomralTemperature,
}

/// The name a battery state is displayed with.
pub open spec fn battery_state_name(v: BatteryState) -> Seq<char> {
    match v {
        BatteryState::Error => "error"@,
        BatteryState::Discharging => "discharging"@,
        BatteryState::Charging => "charging"@,
        BatteryState::Neutral => "neutral"@,
        BatteryState::AbnormalVoltage => "abnormal voltage"@,
        BatteryState::AbnomralTemperature => "abnormal temperature"@,
    }
}

impl BatteryState {
    /// The name it is displayed with.
    pub fn name(&self) -> (r: &'static str)
        ensures
            r@ == battery_state_name(*self),
    {
        match *self {
            BatteryState::Error => "error",
            BatteryState::Discharging => "discharging",
            BatteryState::Charging => "charging",
            BatteryState::Neutral => "neutral",
            BatteryState::AbnormalVoltage => "abnormal voltage",
            BatteryState::AbnomralTemperature => "abnormal temperature",
        }
    }
}

/// Battery level
#[derive(Clone, Copy, PartialEq, Eq, Debug, Structural)]
pub enum BatteryLevel {
    /// The battery is full (70%-100% capacity).
    Full,
    /// The battery is medium (40%-70% capacity).
    Medium,
    /// The battery is low (10%-40% capacity).
    Low,
    /// The battery is critical (<10% capacity).
    Critical,
}

/// The name a battery level is displayed with.
pub open spec fn battery_level_name(v: BatteryLevel) -> Seq<char> {
    match v {
        BatteryLevel::Full => "full"@,
        BatteryLevel::Medium => "medium"@,
        BatteryLevel::Low => "low"@,
        BatteryLevel::Critical => "critical"@,
    }
}

impl BatteryLevel {
    /// The name it is displayed with.
    pub fn name(&self) -> (r: &'static str)
        ensures
            r@ == battery_level_name(*self),
    {
        match *self {
            BatteryLevel::Full => "full",
            BatteryLevel::Medium => "medium",
            BatteryLevel::Low => "low",
            BatteryLevel::Critical => "critical",
        }
    }
}

/// Reading eight buttons from a position gives the position back: pressing just the button
/// that names a direction gives that direction, and pressing none gives neutral.
pub proof fn law_hat_8_round_trip(h: HatSwitch)
    ensures
        hat_from_8_spec(
            h == HatSwitch::Up,
            h == HatSwitch::UpRight,
            h == HatSwitch::Right,
            h == HatSwitch::DownRight,
            h == HatSwitch::Down,
            h == HatSwitch::DownLeft,
            h == HatSwitch::Left,
            h == HatSwitch::UpLeft,
        ) == h,
{
}

} // verus!
