//! Input device definitions: HID usages with their report index, definition kinds, and how a
//! definition is read from the items of a TOML document.
use vstd::prelude::*;
use crate::text::bytes_of;
use crate::path_component::str_eq;
use crate::hid_usages::{Usage, UsageId, UsagePageId};
use crate::usb_vendors::VendorProduct;
use crate::vfs::name_bytes;
use crate::display::string_push_str;

verus! {

/// A HID usage and the index of the report it is found in.
#[derive(Clone, Copy, Debug)]
pub struct UsageDef {
    /// HID usage
    pub usage: Usage,
    /// Report index
    pub report: u16,
}

impl UsageDef {
    pub fn new(usage: Usage, report: u16) -> (r: Self)
        ensures
            r.usage == usage,
            r.report == report,
    {
        Self { usage, report }
    }
}

/// Definition kind flag: no kind.
pub const DEFINITION_NONE: u8 = 0x0;
/// Definition kind flag: a gamepad.
pub const DEFINITION_GAMEPAD: u8 = 0x1;
/// Definition kind flag: touch input.
pub const DEFINITION_TOUCH: u8 = 0x2;
/// Definition kind flag: sensors.
pub const DEFINITION_SENSOR: u8 = 0x4;

/// The kinds of an input device definition, as a set of flags.
#[derive(Clone, Copy, PartialEq, Eq, Debug, Structural)]
pub struct DefinitionKind(pub u8);

/// The flag a single kind name stands for, or no flag for an unknown name.
pub open spec fn definition_kind_bits(name: Seq<u8>) -> u8 {
    if name == bytes_of("gamepad") {
        DEFINITION_GAMEPAD
    } else if name == bytes_of("touch") {
        DEFINITION_TOUCH
    } else if name == bytes_of("sensor") {
        DEFINITION_SENSOR
    } else {
        DEFINITION_NONE
    }
}

impl DefinitionKind {
    /// The kind a single name stands for: `gamepad`, `touch` or `sensor`, and no kind for any
    /// other name.
    pub fn from_single_str(name: &str) -> (r: DefinitionKind)
        ensures
            r.0 == definition_kind_bits(bytes_of(name)),
    {
        if str_eq(name, "gamepad") {
            DefinitionKind(DEFINITION_GAMEPAD)
        } else if str_eq(name, "touch") {
            DefinitionKind(DEFINITION_TOUCH)
        } else if str_eq(name, "sensor") {
            DefinitionKind(DEFINITION_SENSOR)
        } else {
            DefinitionKind(DEFINITION_NONE)
        }
    }

    /// No kind flag is set.
    pub fn is_none(self) -> (r: bool)
        ensures
            r == (self.0 == 0),
    {
        self.0 == 0
    }

    /// All flags of `other` are set in `self`.
    pub fn contains(self, other: DefinitionKind) -> (r: bool)
        ensures
            r == (self.0 & other.0 == other.0),
    {
        self.0 & other.0 == other.0
    }

    /// The flags of both.
    pub fn union(self, other: DefinitionKind) -> (r: DefinitionKind)
        ensures
            r.0 == self.0 | other.0,
    {
        DefinitionKind(self.0 | other.0)
    }
}

/// Input device axis definition
#[derive(Clone, Copy, Debug)]
pub struct DefinitionAxis {
    pub x: UsageDef,
    pub y: Option<UsageDef>,
    pub z: Option<UsageDef>,
}

/// The diagonal buttons of a directional pad.
#[derive(Clone, Copy, Debug)]
pub struct DefinitionDpadDiagonals {
    pub up_left: UsageDef,
    pub down_left: UsageDef,
    pub up_right: UsageDef,
    pub down_right: UsageDef,
}

/// A directional pad: a hat switch, or one button per direction.
#[derive(Clone, Copy, Debug)]
pub enum DefinitionDPad {
    Hat { usage: UsageDef, neutral: u8 },
    Buttons {
        up: UsageDef,
        down: UsageDef,
        left: UsageDef,
        right: UsageDef,
        diags: Option<DefinitionDpadDiagonals>,
    },
}

/// The motion sensors of an input device.
#[derive(Clone, Copy, Debug)]
pub struct DefinitionSensors {
    pub gyroscope: Option<DefinitionAxis>,
    pub accelerometer: Option<DefinitionAxis>,
}


/// A value of a TOML document, as far as device definitions read it.
pub enum TomlItem {
    Str(String),
    Int(i64),
    Bool(bool),
    Array(Vec<TomlItem>),
    /// A table: its keys with their values, in the order they are written.
    Table(Vec<(String, TomlItem)>),
    /// A value of another kind (a float or a date and time), which no definition reads.
    Other,
}

/// The value of the first entry of a table under `key`.
pub open spec fn toml_get(t: Seq<(String, TomlItem)>, key: Seq<u8>) -> Option<TomlItem>
    decreases t.len(),
{
    if t.len() == 0 {
        None
    } else if name_bytes(t[0].0) == key {
        Some(t[0].1)
    } else {
        toml_get(t.drop_first(), key)
    }
}

/// The integer under `key`, if the value there is an integer.
pub open spec fn toml_int(t: Seq<(String, TomlItem)>, key: Seq<u8>) -> Option<i64> {
    match toml_get(t, key) {
        Some(TomlItem::Int(v)) => Some(v),
        _ => None,
    }
}

/// The string under `key`, if the value there is a string.
pub open spec fn toml_str(t: Seq<(String, TomlItem)>, key: Seq<u8>) -> Option<String> {
    match toml_get(t, key) {
        Some(TomlItem::Str(v)) => Some(v),
        _ => None,
    }
}

/// The array under `key`, if the value there is an array.
pub open spec fn toml_array(t: Seq<(String, TomlItem)>, key: Seq<u8>) -> Option<Seq<TomlItem>> {
    match toml_get(t, key) {
        Some(TomlItem::Array(v)) => Some(v@),
        _ => None,
    }
}

/// The table under `key`, if the value there is a table.
pub open spec fn toml_table(t: Seq<(String, TomlItem)>, key: Seq<u8>) -> Option<
    Seq<(String, TomlItem)>,
> {
    match toml_get(t, key) {
        Some(TomlItem::Table(v)) => Some(v@),
        _ => None,
    }
}

/// A usage written as a table with an integer `page` and `usage`, and optionally the index
/// of its `report` (0 when not given); the integers are cut to 16 bits.
pub open spec fn usage_of_item(item: TomlItem) -> Option<UsageDef> {
    match item {
        TomlItem::Table(t) => match (toml_int(t@, bytes_of("page")), toml_int(t@, bytes_of("usage"))) {
            (Some(page), Some(usage)) => Some(
                UsageDef {
                    usage: Usage { page: UsagePageId(page as u16), usage: UsageId(usage as u16) },
                    report: match toml_int(t@, bytes_of("report")) {
                        Some(r) => r as u16,
                        None => 0,
                    },
                },
            ),
            _ => None,
        },
        _ => None,
    }
}

/// A usage that must be present: none when the value is missing or is no usage.
pub open spec fn required_usage(o: Option<TomlItem>) -> Option<UsageDef> {
    match o {
        Some(i) => usage_of_item(i),
        None => None,
    }
}

/// A usage that may be left out: `Some(None)` when missing, none when present but no usage.
pub open spec fn optional_usage(o: Option<TomlItem>) -> Option<Option<UsageDef>> {
    match o {
        None => Some(None),
        Some(i) => match usage_of_item(i) {
            Some(u) => Some(Some(u)),
            None => None,
        },
    }
}

/// An axis written as a table: its `x` usage (or the table itself as the usage when it has no
/// `x`), and optionally `y` and `z`.
pub open spec fn axis_of_item(item: TomlItem) -> Option<DefinitionAxis> {
    match item {
        TomlItem::Table(t) => {
            let z = optional_usage(toml_get(t@, bytes_of("z")));
            let y = optional_usage(toml_get(t@, bytes_of("y")));
            let x = match toml_get(t@, bytes_of("x")) {
                Some(i) => usage_of_item(i),
                None => usage_of_item(item),
            };
            if x is Some && y is Some && z is Some {
                Some(DefinitionAxis { x: x->0, y: y->0, z: z->0 })
            } else {
                None
            }
        },
        _ => None,
    }
}

/// An axis that may be left out.
pub open spec fn optional_axis(o: Option<TomlItem>) -> Option<Option<DefinitionAxis>> {
    match o {
        None => Some(None),
        Some(i) => match axis_of_item(i) {
            Some(a) => Some(Some(a)),
            None => None,
        },
    }
}

/// A directional pad: of `kind` `hat`, a `hat` usage and its `neutral` value (0 when not
/// given); of `kind` `buttons`, an `up`, `down`, `left` and `right` usage, and all four
/// diagonals where any of them is given.
pub open spec fn dpad_of_table(t: Seq<(String, TomlItem)>) -> Option<DefinitionDPad> {
    match toml_str(t, bytes_of("kind")) {
        None => None,
        Some(kind) => if name_bytes(kind) == bytes_of("hat") {
            match required_usage(toml_get(t, bytes_of("hat"))) {
                Some(usage) => Some(
                    DefinitionDPad::Hat {
                        usage,
                        neutral: match toml_int(t, bytes_of("neutral")) {
                            Some(n) => n as u8,
                            None => 0,
                        },
                    },
                ),
                None => None,
            }
        } else if name_bytes(kind) == bytes_of("buttons") {
            let up = required_usage(toml_get(t, bytes_of("up")));
            let down = required_usage(toml_get(t, bytes_of("down")));
            let left = required_usage(toml_get(t, bytes_of("left")));
            let right = required_usage(toml_get(t, bytes_of("right")));
            let up_left = toml_get(t, bytes_of("up_left"));
            let up_right = toml_get(t, bytes_of("up_right"));
            let down_left = toml_get(t, bytes_of("down_left"));
            let down_right = toml_get(t, bytes_of("down_right"));
            let any_diag = up_left is Some || up_right is Some || down_left is Some
                || down_right is Some;
            let diags: Option<Option<DefinitionDpadDiagonals>> = if !any_diag {
                Some(None)
            } else if required_usage(up_left) is Some && required_usage(up_right) is Some
                && required_usage(down_left) is Some && required_usage(down_right) is Some {
                Some(
                    Some(
                        DefinitionDpadDiagonals {
                            up_left: required_usage(up_left)->0,
                            down_left: required_usage(down_left)->0,
                            up_right: required_usage(up_right)->0,
                            down_right: required_usage(down_right)->0,
                        },
                    ),
                )
            } else {
                None
            };
            if up is Some && down is Some && left is Some && right is Some && diags is Some {
                Some(
                    DefinitionDPad::Buttons {
                        up: up->0,
                        down: down->0,
                        left: left->0,
                        right: right->0,
                        diags: diags->0,
                    },
                )
            } else {
                None
            }
        } else {
            None
        },
    }
}

/// The touch surfaces under `touch`: an array of axes, or a single axis table.
pub open spec fn touch_of_table(t: Seq<(String, TomlItem)>) -> Option<Seq<DefinitionAxis>> {
    match toml_get(t, bytes_of("touch")) {
        Some(TomlItem::Array(arr)) => if forall|i: int|
            0 <= i < arr@.len() ==> (#[trigger] axis_of_item(arr@[i])) is Some {
            Some(arr@.map_values(|a: TomlItem| axis_of_item(a)->0))
        } else {
            None
        },
        Some(TomlItem::Table(tt)) => match axis_of_item(TomlItem::Table(tt)) {
            Some(a) => Some(seq![a]),
            None => None,
        },
        _ => None,
    }
}

/// The motion sensors: an optional `gyroscope` and `accelerometer` axis.
pub open spec fn sensors_of_table(t: Seq<(String, TomlItem)>) -> Option<DefinitionSensors> {
    let g = optional_axis(toml_get(t, bytes_of("gyroscope")));
    let a = optional_axis(toml_get(t, bytes_of("accelerometer")));
    if g is Some && a is Some {
        Some(DefinitionSensors { gyroscope: g->0, accelerometer: a->0 })
    } else {
        None
    }
}

/// No sensors.
pub open spec fn no_sensors() -> DefinitionSensors {
    DefinitionSensors { gyroscope: None, accelerometer: None }
}

/// The kind flag of one element of a `kind` array: that of a string, none for anything else.
pub open spec fn kind_item_bits(i: TomlItem) -> u8 {
    match i {
        TomlItem::Str(s) => definition_kind_bits(name_bytes(s)),
        _ => DEFINITION_NONE,
    }
}

/// The flags of all elements of a `kind` array together.
pub open spec fn kind_array_bits(arr: Seq<TomlItem>) -> u8
    decreases arr.len(),
{
    if arr.len() == 0 {
        DEFINITION_NONE
    } else {
        kind_array_bits(arr.drop_last()) | kind_item_bits(arr.last())
    }
}

/// The kind of a definition: one known kind name, or an array of names whose known ones are
/// taken together.
pub open spec fn kind_of_table(t: Seq<(String, TomlItem)>) -> Option<u8> {
    match toml_str(t, bytes_of("kind")) {
        Some(s) => if definition_kind_bits(name_bytes(s)) == DEFINITION_NONE {
            None
        } else {
            Some(definition_kind_bits(name_bytes(s)))
        },
        None => match toml_array(t, bytes_of("kind")) {
            Some(arr) => Some(kind_array_bits(arr)),
            None => None,
        },
    }
}

/// The entries of a table whose values read as usages, by name, in table order.
pub open spec fn buttons_of(t: Seq<(String, TomlItem)>) -> Seq<(Seq<u8>, UsageDef)>
    decreases t.len(),
{
    if t.len() == 0 {
        seq![]
    } else {
        buttons_of(t.drop_last()) + match usage_of_item(t.last().1) {
            Some(u) => seq![(name_bytes(t.last().0), u)],
            None => seq![],
        }
    }
}

/// The entries of a table whose values read as axes, by name, in table order.
pub open spec fn axes_of(t: Seq<(String, TomlItem)>) -> Seq<(Seq<u8>, DefinitionAxis)>
    decreases t.len(),
{
    if t.len() == 0 {
        seq![]
    } else {
        axes_of(t.drop_last()) + match axis_of_item(t.last().1) {
            Some(a) => seq![(name_bytes(t.last().0), a)],
            None => seq![],
        }
    }
}

/// Named entries, by the bytes of their names.
pub open spec fn named<V>(s: Seq<(String, V)>) -> Seq<(Seq<u8>, V)> {
    s.map_values(|e: (String, V)| (name_bytes(e.0), e.1))
}

/// The text a definition's kind adds to the name of a definition without one: a space and
/// the name of each kind it has.
pub open spec fn kind_text(bits: u8) -> Seq<char> {
    (if bits & DEFINITION_GAMEPAD != 0 {
        " gamepad"@
    } else {
        Seq::<char>::empty()
    }) + (if bits & DEFINITION_TOUCH != 0 {
        " touch"@
    } else {
        Seq::<char>::empty()
    }) + (if bits & DEFINITION_SENSOR != 0 {
        " sensor"@
    } else {
        Seq::<char>::empty()
    })
}

/// A definition table has what a definition needs: a kind, and an integer `vid` and `pid`.
pub open spec fn definition_ok(t: Seq<(String, TomlItem)>) -> bool {
    &&& kind_of_table(t) is Some
    &&& toml_int(t, bytes_of("vid")) is Some
    &&& toml_int(t, bytes_of("pid")) is Some
}

/// Input device HID definition
#[derive(Clone, Debug)]
pub struct InputDeviceDefinition {
    pub kind: DefinitionKind,
    pub name: String,
    pub vendor_product: VendorProduct,
    /// The buttons by name.
    pub buttons: Vec<(String, UsageDef)>,
    /// The axes by name.
    pub axes: Vec<(String, DefinitionAxis)>,
    pub dpad: Option<DefinitionDPad>,
    pub touch: Vec<DefinitionAxis>,
    pub sensors: DefinitionSensors,
}

/// `d` is what the definition table `t` describes.  A name that is missing is made from the
/// kind; a `buttons` or `axes` table keeps the entries that read well; a `dpad`, `touch` or
/// `sensors` table that does not read well counts as missing.
pub open spec fn definition_from(d: InputDeviceDefinition, t: Seq<(String, TomlItem)>) -> bool {
    &&& d.kind.0 == kind_of_table(t)->0
    &&& d.name@ == match toml_str(t, bytes_of("name")) {
        Some(n) => n@,
        None => "generic"@ + kind_text(kind_of_table(t)->0),
    }
    &&& d.vendor_product.vendor.0 == toml_int(t, bytes_of("vid"))->0 as u16
    &&& d.vendor_product.device.0 == toml_int(t, bytes_of("pid"))->0 as u16
    &&& named(d.buttons@) == match toml_table(t, bytes_of("buttons")) {
        Some(b) => buttons_of(b),
        None => seq![],
    }
    &&& named(d.axes@) == match toml_table(t, bytes_of("axes")) {
        Some(a) => axes_of(a),
        None => seq![],
    }
    &&& d.dpad == match toml_table(t, bytes_of("dpad")) {
        Some(p) => dpad_of_table(p),
        None => None,
    }
    &&& d.touch@ == match toml_table(t, bytes_of("touch")) {
        Some(p) => match touch_of_table(p) {
            Some(s) => s,
            None => seq![],
        },
        None => seq![],
    }
    &&& d.sensors == match toml_table(t, bytes_of("sensors")) {
        Some(p) => match sensors_of_table(p) {
            Some(s) => s,
            None => no_sensors(),
        },
        None => no_sensors(),
    }
}

/// The value of the first entry of `t` under `key`.
fn table_find<'t>(t: &'t Vec<(String, TomlItem)>, key: &str) -> (r: Option<&'t TomlItem>)
    ensures
        match r {
            Some(x) => toml_get(t@, bytes_of(key)) == Some(*x),
            None => toml_get(t@, bytes_of(key)) is None,
        },
{
    let mut i: usize = 0;
    assert(t@.skip(0) =~= t@);
    while i < t.len()
        invariant
            i <= t@.len(),
            toml_get(t@, bytes_of(key)) == toml_get(t@.skip(i as int), bytes_of(key)),
        decreases t@.len() - i,
    {
        assert(t@.skip(i as int)[0] == t@[i as int]);
        if str_eq(t[i].0.as_str(), key) {
            return Some(&t[i].1);
        }
        assert(t@.skip(i as int).drop_first() =~= t@.skip(i + 1));
        i = i + 1;
    }
    assert(t@.skip(i as int).len() == 0);
    None
}

fn table_int(t: &Vec<(String, TomlItem)>, key: &str) -> (r: Option<i64>)
    ensures
        r == toml_int(t@, bytes_of(key)),
{
    match table_find(t, key) {
        Some(TomlItem::Int(v)) => Some(*v),
        _ => None,
    }
}

fn table_str<'t>(t: &'t Vec<(String, TomlItem)>, key: &str) -> (r: Option<&'t String>)
    ensures
        match r {
            Some(s) => toml_str(t@, bytes_of(key)) == Some(*s),
            None => toml_str(t@, bytes_of(key)) is None,
        },
{
    match table_find(t, key) {
        Some(TomlItem::Str(v)) => Some(v),
        _ => None,
    }
}

fn table_table<'t>(t: &'t Vec<(String, TomlItem)>, key: &str) -> (r: Option<
    &'t Vec<(String, TomlItem)>,
>)
    ensures
        match r {
            Some(v) => toml_table(t@, bytes_of(key)) == Some(v@),
            None => toml_table(t@, bytes_of(key)) is None,
        },
{
    match table_find(t, key) {
        Some(TomlItem::Table(v)) => Some(v),
        _ => None,
    }
}

/// Reads a usage: a table with an integer `page` and `usage`, and optionally a `report`.
pub fn parse_usage(item: &TomlItem) -> (r: Option<UsageDef>)
    ensures
        r == usage_of_item(*item),
{
    match item {
        TomlItem::Table(t) => {
            let page = table_int(t, "page");
            let usage = table_int(t, "usage");
            match (page, usage) {
                (Some(page), Some(usage)) => {
                    let report: u16 = match table_int(t, "report") {
                        Some(r) => r as u16,
                        None => 0,
                    };
                    Some(UsageDef::new(Usage::from_u16(page as u16, usage as u16), report))
                },
                _ => None,
            }
        },
        _ => None,
    }
}

fn parse_optional_usage(o: Option<&TomlItem>) -> (r: Option<Option<UsageDef>>)
    ensures
        r == optional_usage(match o {
            Some(i) => Some(*i),
            None => None,
        }),
{
    match o {
        None => Some(None),
        Some(i) => match parse_usage(i) {
            Some(u) => Some(Some(u)),
            None => None,
        },
    }
}

fn parse_required_usage(o: Option<&TomlItem>) -> (r: Option<UsageDef>)
    ensures
        r == required_usage(match o {
            Some(i) => Some(*i),
            None => None,
        }),
{
    match o {
        Some(i) => parse_usage(i),
        None => None,
    }
}

/// Reads an axis: a table with an `x` usage (or the table itself as the usage when it has no
/// `x`) and optionally `y` and `z` usages.
pub fn parse_axis(item: &TomlItem) -> (r: Option<DefinitionAxis>)
    ensures
        r == axis_of_item(*item),
{
    match item {
        TomlItem::Table(t) => {
            let z = parse_optional_usage(table_find(t, "z"));
            let y = parse_optional_usage(table_find(t, "y"));
            let x = match table_find(t, "x") {
                Some(i) => parse_usage(i),
                None => parse_usage(item),
            };
            match (x, y, z) {
                (Some(x), Some(y), Some(z)) => Some(DefinitionAxis { x, y, z }),
                _ => None,
            }
        },
        _ => None,
    }
}

/// Reads a directional pad from its table.
pub fn parse_dpad(t: &Vec<(String, TomlItem)>) -> (r: Option<DefinitionDPad>)
    ensures
        r == dpad_of_table(t@),
{
    let kind = match table_str(t, "kind") {
        Some(k) => k,
        None => return None,
    };
    if str_eq(kind.as_str(), "hat") {
        match parse_required_usage(table_find(t, "hat")) {
            Some(usage) => {
                let neutral: u8 = match table_int(t, "neutral") {
                    Some(n) => n as u8,
                    None => 0,
                };
                Some(DefinitionDPad::Hat { usage, neutral })
            },
            None => None,
        }
    } else if str_eq(kind.as_str(), "buttons") {
        let up = parse_required_usage(table_find(t, "up"));
        let down = parse_required_usage(table_find(t, "down"));
        let left = parse_required_usage(table_find(t, "left"));
        let right = parse_required_usage(table_find(t, "right"));
        let up_left = table_find(t, "up_left");
        let up_right = table_find(t, "up_right");
        let down_left = table_find(t, "down_left");
        let down_right = table_find(t, "down_right");
        let any_diag = up_left.is_some() || up_right.is_some() || down_left.is_some()
            || down_right.is_some();
        let diags: Option<Option<DefinitionDpadDiagonals>> = if !any_diag {
            Some(None)
        } else {
            match (
                parse_required_usage(up_left),
                parse_required_usage(up_right),
                parse_required_usage(down_left),
                parse_required_usage(down_right),
            ) {
                (Some(up_left), Some(up_right), Some(down_left), Some(down_right)) => Some(
                    Some(DefinitionDpadDiagonals { up_left, down_left, up_right, down_right }),
                ),
                _ => None,
            }
        };
        match (up, down, left, right, diags) {
            (Some(up), Some(down), Some(left), Some(right), Some(diags)) => Some(
                DefinitionDPad::Buttons { up, down, left, right, diags },
            ),
            _ => None,
        }
    } else {
        None
    }
}

/// Reads the touch surfaces: an array of axes, or a single axis table, under `touch`.
pub fn parse_touch(t: &Vec<(String, TomlItem)>) -> (r: Option<Vec<DefinitionAxis>>)
    ensures
        match r {
            Some(v) => touch_of_table(t@) == Some(v@),
            None => touch_of_table(t@) is None,
        },
{
    let item = match table_find(t, "touch") {
        Some(item) => item,
        None => return None,
    };
    match item {
        TomlItem::Array(arr) => {
            let mut axes: Vec<DefinitionAxis> = Vec::new();
            let mut i: usize = 0;
            while i < arr.len()
                invariant
                    toml_get(t@, bytes_of("touch")) == Some(TomlItem::Array(*arr)),
                    i <= arr@.len(),
                    forall|j: int| 0 <= j < i ==> (#[trigger] axis_of_item(arr@[j])) is Some,
                    axes@ == arr@.take(i as int).map_values(|a: TomlItem| axis_of_item(a)->0),
                decreases arr@.len() - i,
            {
                match parse_axis(&arr[i]) {
                    Some(a) => axes.push(a),
                    None => {
                        assert(!(axis_of_item(arr@[i as int]) is Some));
                        assert(!(forall|j: int|
                            0 <= j < arr@.len() ==> (#[trigger] axis_of_item(arr@[j])) is Some));
                        assert(touch_of_table(t@) is None);
                        return None;
                    },
                }
                assert(arr@.take(i + 1).map_values(|a: TomlItem| axis_of_item(a)->0) =~= arr@.take(
                    i as int,
                ).map_values(|a: TomlItem| axis_of_item(a)->0).push(axis_of_item(arr@[i as int])->0));
                i = i + 1;
            }
            assert(arr@.take(i as int) =~= arr@);
            Some(axes)
        },
        TomlItem::Table(_) => match parse_axis(item) {
            Some(a) => Some(vec![a]),
            None => None,
        },
        _ => None,
    }
}

/// Reads the motion sensors: an optional `gyroscope` and `accelerometer` axis.
pub fn parse_sensors(t: &Vec<(String, TomlItem)>) -> (r: Option<DefinitionSensors>)
    ensures
        r == sensors_of_table(t@),
{
    let g = match table_find(t, "gyroscope") {
        None => Some(None),
        Some(i) => match parse_axis(i) {
            Some(a) => Some(Some(a)),
            None => None,
        },
    };
    let a = match table_find(t, "accelerometer") {
        None => Some(None),
        Some(i) => match parse_axis(i) {
            Some(a) => Some(Some(a)),
            None => None,
        },
    };
    match (g, a) {
        (Some(gyroscope), Some(accelerometer)) => Some(DefinitionSensors { gyroscope, accelerometer }),
        _ => None,
    }
}

/// Reads the kind of a definition.
fn parse_kind(t: &Vec<(String, TomlItem)>) -> (r: Option<DefinitionKind>)
    ensures
        match r {
            Some(k) => kind_of_table(t@) == Some(k.0),
            None => kind_of_table(t@) is None,
        },
{
    match table_str(t, "kind") {
        Some(s) => {
            let kind = DefinitionKind::from_single_str(s.as_str());
            if kind.is_none() {
                None
            } else {
                Some(kind)
            }
        },
        None => match table_find(t, "kind") {
            Some(TomlItem::Array(arr)) => {
                let mut kind = DefinitionKind(DEFINITION_NONE);
                let mut i: usize = 0;
                while i < arr.len()
                    invariant
                        i <= arr@.len(),
                        kind.0 == kind_array_bits(arr@.take(i as int)),
                    decreases arr@.len() - i,
                {
                    assert(arr@.take(i + 1).drop_last() =~= arr@.take(i as int));
                    let one = match &arr[i] {
                        TomlItem::Str(name) => DefinitionKind::from_single_str(name.as_str()),
                        _ => DefinitionKind(DEFINITION_NONE),
                    };
                    kind = kind.union(one);
                    i = i + 1;
                }
                assert(arr@.take(i as int) =~= arr@);
                Some(kind)
            },
            _ => None,
        },
    }
}

/// The entries of a table whose values read as usages, in table order.
fn parse_buttons(t: &Vec<(String, TomlItem)>) -> (r: Vec<(String, UsageDef)>)
    ensures
        named(r@) == buttons_of(t@),
{
    let mut out: Vec<(String, UsageDef)> = Vec::new();
    let mut i: usize = 0;
    while i < t.len()
        invariant
            i <= t@.len(),
            named(out@) == buttons_of(t@.take(i as int)),
        decreases t@.len() - i,
    {
        assert(t@.take(i + 1).drop_last() =~= t@.take(i as int));
        match parse_usage(&t[i].1) {
            Some(u) => {
                out.push((t[i].0.clone(), u));
                assert(named(out@) =~= buttons_of(t@.take(i as int)) + seq![
                    (name_bytes(t@[i as int].0), u),
                ]);
            },
            None => {
                assert(buttons_of(t@.take(i + 1)) =~= buttons_of(t@.take(i as int)));
            },
        }
        i = i + 1;
    }
    assert(t@.take(i as int) =~= t@);
    out
}

/// The entries of a table whose values read as axes, in table order.
fn parse_axes(t: &Vec<(String, TomlItem)>) -> (r: Vec<(String, DefinitionAxis)>)
    ensures
        named(r@) == axes_of(t@),
{
    let mut out: Vec<(String, DefinitionAxis)> = Vec::new();
    let mut i: usize = 0;
    while i < t.len()
        invariant
            i <= t@.len(),
            named(out@) == axes_of(t@.take(i as int)),
        decreases t@.len() - i,
    {
        assert(t@.take(i + 1).drop_last() =~= t@.take(i as int));
        match parse_axis(&t[i].1) {
            Some(a) => {
                out.push((t[i].0.clone(), a));
                assert(named(out@) =~= axes_of(t@.take(i as int)) + seq![
                    (name_bytes(t@[i as int].0), a),
                ]);
            },
            None => {
                assert(axes_of(t@.take(i + 1)) =~= axes_of(t@.take(i as int)));
            },
        }
        i = i + 1;
    }
    assert(t@.take(i as int) =~= t@);
    out
}

/// The name of a definition without one: `generic` and the names of its kinds.
fn generic_name(kind: DefinitionKind) -> (r: String)
    ensures
        r@ == "generic"@ + kind_text(kind.0),
{
    let mut s = "generic".to_owned();
    if kind.0 & DEFINITION_GAMEPAD != 0 {
        string_push_str(&mut s, " gamepad");
    }
    if kind.0 & DEFINITION_TOUCH != 0 {
        string_push_str(&mut s, " touch");
    }
    if kind.0 & DEFINITION_SENSOR != 0 {
        string_push_str(&mut s, " sensor");
    }
    assert(s@ =~= "generic"@ + kind_text(kind.0));
    s
}

/// Reads one device definition from its table.  There is none unless the item is a table
/// with a kind (one known kind name, or an array of names whose known ones are taken
/// together) and an integer `vid` and `pid`; see `definition_from` for the rest.
pub fn parse_definition(item: &TomlItem) -> (r: Option<InputDeviceDefinition>)
    ensures
        match *item {
            TomlItem::Table(t) => (r is Some <==> definition_ok(t@)) && (r matches Some(d)
                ==> definition_from(d, t@)),
            _ => r is None,
        },
{
    let t = match item {
        TomlItem::Table(t) => t,
        _ => return None,
    };
    let kind = match parse_kind(t) {
        Some(k) => k,
        None => return None,
    };
    let vid = match table_int(t, "vid") {
        Some(v) => v,
        None => return None,
    };
    let pid = match table_int(t, "pid") {
        Some(v) => v,
        None => return None,
    };
    let name = match table_str(t, "name") {
        Some(n) => n.clone(),
        None => generic_name(kind),
    };
    let buttons = match table_table(t, "buttons") {
        Some(b) => parse_buttons(b),
        None => Vec::new(),
    };
    let axes = match table_table(t, "axes") {
        Some(a) => parse_axes(a),
        None => Vec::new(),
    };
    let dpad = match table_table(t, "dpad") {
        Some(p) => parse_dpad(p),
        None => None,
    };
    let touch = match table_table(t, "touch") {
        Some(p) => match parse_touch(p) {
            Some(v) => v,
            None => Vec::new(),
        },
        None => Vec::new(),
    };
    let sensors = match table_table(t, "sensors") {
        Some(p) => match parse_sensors(p) {
            Some(s) => s,
            None => DefinitionSensors { gyroscope: None, accelerometer: None },
        },
        None => DefinitionSensors { gyroscope: None, accelerometer: None },
    };
    proof {
        assert(named(Seq::<(String, UsageDef)>::empty()) =~= seq![]);
        assert(named(Seq::<(String, DefinitionAxis)>::empty()) =~= seq![]);
    }
    Some(
        InputDeviceDefinition {
            kind,
            name,
            vendor_product: VendorProduct::from_u16(vid as u16, pid as u16),
            buttons,
            axes,
            dpad,
            touch,
            sensors,
        },
    )
}

/// The definition tables among the items, in order: those that read as definitions.
pub open spec fn definition_tables(items: Seq<TomlItem>) -> Seq<Seq<(String, TomlItem)>>
    decreases items.len(),
{
    if items.len() == 0 {
        seq![]
    } else {
        definition_tables(items.drop_last()) + match items.last() {
            TomlItem::Table(t) => if definition_ok(t@) {
                seq![t@]
            } else {
                seq![]
            },
            _ => seq![],
        }
    }
}

/// Reads the device definitions of a document (its top-level table): the elements of its
/// `definition` array that read as definitions, in order; none where there is no such array.
pub fn parse_definitions(doc: &Vec<(String, TomlItem)>) -> (r: Vec<InputDeviceDefinition>)
    ensures
        ({
            let tables = match toml_array(doc@, bytes_of("definition")) {
                Some(items) => definition_tables(items),
                None => seq![],
            };
            &&& r@.len() == tables.len()
            &&& forall|i: int| 0 <= i < r@.len() ==> definition_from(#[trigger] r@[i], tables[i])
        }),
{
    let mut defs: Vec<InputDeviceDefinition> = Vec::new();
    match table_find(doc, "definition") {
        Some(TomlItem::Array(items)) => {
            let mut i: usize = 0;
            while i < items.len()
                invariant
                    i <= items@.len(),
                    defs@.len() == definition_tables(items@.take(i as int)).len(),
                    forall|j: int|
                        0 <= j < defs@.len() ==> definition_from(
                            #[trigger] defs@[j],
                            definition_tables(items@.take(i as int))[j],
                        ),
                decreases items@.len() - i,
            {
                assert(items@.take(i + 1).drop_last() =~= items@.take(i as int));
                let ghost before = definition_tables(items@.take(i as int));
                match parse_definition(&items[i]) {
                    Some(d) => {
                        defs.push(d);
                    },
                    None => {},
                }
                proof {
                    let after = definition_tables(items@.take(i + 1));
                    assert(after.len() == defs@.len());
                    assert forall|j: int| 0 <= j < defs@.len() implies definition_from(
                        #[trigger] defs@[j],
                        after[j],
                    ) by {
                        if j < before.len() {
                            assert(after[j] == before[j]);
                        }
                    }
                }
                i = i + 1;
            }
            assert(items@.take(i as int) =~= items@);
        },
        _ => {},
    }
    defs
}

} // verus!
