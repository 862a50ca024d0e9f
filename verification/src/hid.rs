//! HID device data: handles, collections, capabilities and raw values.
use vstd::prelude::*;
use vstd::arithmetic::power2::{pow2, lemma_pow2_pos, lemma_pow2_adds, lemma2_to64};
use vstd::bits::{lemma_u64_shl_is_mul, lemma_u64_shr_is_div, lemma_u64_pow2_no_overflow, lemma_u64_low_bits_mask_is_mod, low_bits_mask};
use crate::hid_usages::{Usage, UsageId, UsagePageId};
use crate::display::{decimal, signed_decimal, push_decimal, push_signed_decimal, string_push_str};

verus! {

/// An opaque handle to a HID device.
#[derive(Clone, Copy, PartialEq, Eq, Debug, Hash, Structural)]
pub struct DeviceHandle(pub usize);

impl DeviceHandle {
    pub fn new(raw: usize) -> (r: DeviceHandle)
        ensures
            r.0 == raw,
    {
        DeviceHandle(raw)
    }

    /// A handle is valid unless it is 0 or all ones.
    pub fn is_valid(&self) -> (r: bool)
        ensures
            r == (self.0 != 0 && self.0 != usize::MAX),
    {
        self.0 != 0 && self.0 != usize::MAX
    }
}

/// A vendor-defined collection type: a value of at least 0x80.
#[derive(Clone, Copy, PartialEq, Eq, Debug)]
pub struct VendorCollectionType {
    ty: u8,
}

impl VendorCollectionType {
    #[verifier::type_invariant]
    spec fn inv(self) -> bool {
        self.ty >= 0x80
    }

    pub closed spec fn value(self) -> u8 {
        self.ty
    }

    /// A vendor collection type, for values of at least 0x80.
    pub fn new(ty: u8) -> (r: Option<Self>)
        ensures
            r is Some <==> ty >= 0x80,
            r matches Some(v) ==> v.value() == ty,
    {
        if ty >= 0x80 {
            Some(VendorCollectionType { ty })
        } else {
            None
        }
    }

    /// The value as it is displayed: in decimal.
    pub fn to_string(&self) -> (r: String)
        ensures
            r@ == decimal(self.value() as nat),
    {
        let mut s = String::new();
        push_decimal(&mut s, self.ty as u64);
        assert(s@ =~= decimal(self.value() as nat));
        s
    }

    /// The raw value.
    pub fn get(&self) -> (r: u8)
        ensures
            r == self.value(),
            r >= 0x80,
    {
        proof {
            use_type_invariant(self);
        }
        self.ty
    }
}

/// The kind of a HID collection.
#[derive(Clone, Copy, PartialEq, Eq, Debug)]
pub enum CollectionKind {
    /// Collection containing physically related values, e.g. group of axes.
    Physical,
    /// Collection containing application defined collection, e.g. mouse or keyboard.
    Application,
    /// Collection containing logically related values.
    Logical,
    /// Report
    Report,
    /// Names array
    NamedArray,
    /// Usage switch
    UsageSwitch,
    /// Usage modified
    UsageModified,
    /// Collection specified by the vendor
    Vendor(VendorCollectionType),
}

impl CollectionKind {
    /// The kind a raw value stands for: 0 to 6 are the defined kinds, 7 to 127 are reserved,
    /// and 128 and up are vendor defined.
    pub fn from_u8(val: u8) -> (r: Option<Self>)
        ensures
            r is None <==> 7 <= val < 128,
            val == 0 ==> r == Some(CollectionKind::Physical),
            val == 1 ==> r == Some(CollectionKind::Application),
            val == 2 ==> r == Some(CollectionKind::Logical),
            val == 3 ==> r == Some(CollectionKind::Report),
            val == 4 ==> r == Some(CollectionKind::NamedArray),
            val == 5 ==> r == Some(CollectionKind::UsageSwitch),
            val == 6 ==> r == Some(CollectionKind::UsageModified),
            val >= 128 ==> (r matches Some(CollectionKind::Vendor(v)) && v.value() == val),
    {
        match val {
            0 => Some(Self::Physical),
            1 => Some(Self::Application),
            2 => Some(Self::Logical),
            3 => Some(Self::Report),
            4 => Some(Self::NamedArray),
            5 => Some(Self::UsageSwitch),
            6 => Some(Self::UsageModified),
            _ => {
                if val < 128 {
                    None
                } else {
                    match VendorCollectionType::new(val) {
                        Some(v) => Some(Self::Vendor(v)),
                        None => None,
                    }
                }
            },
        }
    }
}

/// The text a collection kind is displayed with.
pub open spec fn collection_kind_text(k: CollectionKind) -> Seq<char> {
    match k {
        CollectionKind::Physical => "Physical"@,
        CollectionKind::Application => "Application"@,
        CollectionKind::Logical => "Logical"@,
        CollectionKind::Report => "Report"@,
        CollectionKind::NamedArray => "NamedArray"@,
        CollectionKind::UsageSwitch => "UsageSwitch"@,
        CollectionKind::UsageModified => "UsageModify"@,
        CollectionKind::Vendor(v) => "Vendor("@ + decimal(v.value() as nat) + ")"@,
    }
}

impl CollectionKind {
    /// The kind as it is displayed: its name, or the vendor's value for a vendor kind.
    pub fn to_string(&self) -> (r: String)
        ensures
            r@ == collection_kind_text(*self),
    {
        match self {
            CollectionKind::Physical => "Physical".to_owned(),
            CollectionKind::Application => "Application".to_owned(),
            CollectionKind::Logical => "Logical".to_owned(),
            CollectionKind::Report => "Report".to_owned(),
            CollectionKind::NamedArray => "NamedArray".to_owned(),
            CollectionKind::UsageSwitch => "UsageSwitch".to_owned(),
            CollectionKind::UsageModified => "UsageModify".to_owned(),
            CollectionKind::Vendor(v) => {
                let mut s = "Vendor(".to_owned();
                let n = v.to_string();
                string_push_str(&mut s, n.as_str());
                string_push_str(&mut s, ")");
                s
            },
        }
    }
}

/// An inclusive range.
#[derive(Clone, Copy, Debug)]
pub struct ValueRange<T> {
    pub start: T,
    pub end: T,
}

impl ValueRange<u16> {
    pub fn contains(&self, val: &u16) -> (r: bool)
        ensures
            r == (self.start <= *val && *val <= self.end),
    {
        self.start <= *val && *val <= self.end
    }
}

impl ValueRange<u16> {
    /// The range as it is displayed: `[start:end]`.
    pub fn to_string(&self) -> (r: String)
        ensures
            r@ == "["@ + decimal(self.start as nat) + ":"@ + decimal(self.end as nat) + "]"@,
    {
        let mut s = String::new();
        string_push_str(&mut s, "[");
        push_decimal(&mut s, self.start as u64);
        string_push_str(&mut s, ":");
        push_decimal(&mut s, self.end as u64);
        string_push_str(&mut s, "]");
        assert(s@ =~= "["@ + decimal(self.start as nat) + ":"@ + decimal(self.end as nat) + "]"@);
        s
    }
}

impl ValueRange<i32> {
    /// The range as it is displayed: `[start:end]`.
    pub fn to_string(&self) -> (r: String)
        ensures
            r@ == "["@ + signed_decimal(self.start as int) + ":"@ + signed_decimal(self.end as int) + "]"@,
    {
        let mut s = String::new();
        string_push_str(&mut s, "[");
        push_signed_decimal(&mut s, self.start);
        string_push_str(&mut s, ":");
        push_signed_decimal(&mut s, self.end);
        string_push_str(&mut s, "]");
        assert(s@ =~= "["@ + signed_decimal(self.start as int) + ":"@ + signed_decimal(self.end as int)
            + "]"@);
        s
    }
}

impl ValueRange<i32> {
    pub fn contains(&self, val: &i32) -> (r: bool)
        ensures
            r == (self.start <= *val && *val <= self.end),
    {
        self.start <= *val && *val <= self.end
    }
}

impl ValueRange<UsageId> {
    pub fn contains(&self, val: &UsageId) -> (r: bool)
        ensures
            r == (self.start.0 <= val.0 && val.0 <= self.end.0),
    {
        self.start.0 <= val.0 && val.0 <= self.end.0
    }
}

/// A HID collection.
#[derive(Clone, Debug)]
pub struct CollectionNode {
    /// Collection id range
    pub ids: ValueRange<u16>,
    /// All usages for this collection, one per id
    pub usages: Vec<Usage>,
    /// Kind/type of collection
    pub kind: CollectionKind,
    /// Indices of the child collections in their top-level collection
    pub children: Vec<u16>,
}

impl CollectionNode {
    /// The usage the collection prefers: its last one.
    pub fn get_prefered_usage(&self) -> (r: Usage)
        requires
            self.usages@.len() > 0,
        ensures
            r == self.usages@.last(),
    {
        self.usages[self.usages.len() - 1]
    }

    /// The usage of a collection id in the range, if it is in range.
    pub fn usage_for_id(&self, id: u16) -> (r: Option<Usage>)
        requires
            self.ids.start <= id <= self.ids.end ==> id - self.ids.start < self.usages@.len(),
        ensures
            r == if self.ids.start <= id <= self.ids.end {
                Some(self.usages@[id - self.ids.start])
            } else {
                None::<Usage>
            },
    {
        if self.ids.contains(&id) {
            let idx = (id - self.ids.start) as usize;
            Some(self.usages[idx])
        } else {
            None
        }
    }
}

/// A HID top-level collection: its nodes, the first of which is the top node.
pub struct TopLevelCollection {
    nodes: Vec<CollectionNode>,
}

impl TopLevelCollection {
    pub closed spec fn view(&self) -> Seq<CollectionNode> {
        self.nodes@
    }

    /// Put the nodes together, giving each node the children listed at its index.
    pub fn new(nodes: Vec<CollectionNode>, children: Vec<Vec<u16>>) -> (r: Self)
        requires
            nodes@.len() > 0,
            children@.len() <= nodes@.len(),
            forall|i: int, j: int|
                0 <= i < children@.len() && 0 <= j < children@[i]@.len() ==> children@[i]@[j]
                    < nodes@.len(),
        ensures
            r.view().len() == nodes@.len(),
            forall|i: int|
                0 <= i < nodes@.len() ==> (#[trigger] r.view()[i]).ids == nodes@[i].ids
                    && r.view()[i].usages@ == nodes@[i].usages@ && r.view()[i].kind
                    == nodes@[i].kind && r.view()[i].children@ == nodes@[i].children@ + if i
                    < children@.len() {
                    children@[i]@
                } else {
                    Seq::<u16>::empty()
                },
    {
        let mut out: Vec<CollectionNode> = Vec::new();
        let mut id: usize = 0;
        while id < nodes.len()
            invariant
                id <= nodes@.len(),
                out@.len() == id,
                forall|i: int|
                    0 <= i < id ==> (#[trigger] out@[i]).ids == nodes@[i].ids && out@[i].usages@
                        == nodes@[i].usages@ && out@[i].kind == nodes@[i].kind && out@[i].children@
                        == nodes@[i].children@ + if i < children@.len() {
                        children@[i]@
                    } else {
                        Seq::<u16>::empty()
                    },
            decreases nodes@.len() - id,
        {
            let n = &nodes[id];
            let mut kids: Vec<u16> = Vec::new();
            let mut k: usize = 0;
            while k < n.children.len()
                invariant
                    k <= n.children@.len(),
                    kids@ == n.children@.subrange(0, k as int),
                decreases n.children@.len() - k,
            {
                kids.push(n.children[k]);
                k = k + 1;
            }
            if id < children.len() {
                let extra = &children[id];
                let mut k: usize = 0;
                while k < extra.len()
                    invariant
                        k <= extra@.len(),
                        kids@ == n.children@ + extra@.subrange(0, k as int),
                    decreases extra@.len() - k,
                {
                    proof {
                        assert(n.children@ + extra@.subrange(0, k + 1) =~= (n.children@
                            + extra@.subrange(0, k as int)).push(extra@[k as int]));
                    }
                    kids.push(extra[k]);
                    k = k + 1;
                }
                assert(extra@.subrange(0, extra@.len() as int) =~= extra@);
            } else {
                assert(n.children@.subrange(0, n.children@.len() as int) =~= n.children@);
                assert(kids@ =~= n.children@ + Seq::<u16>::empty());
            }
            let mut usages: Vec<Usage> = Vec::new();
            let mut k: usize = 0;
            while k < n.usages.len()
                invariant
                    k <= n.usages@.len(),
                    usages@ == n.usages@.subrange(0, k as int),
                decreases n.usages@.len() - k,
            {
                usages.push(n.usages[k]);
                k = k + 1;
            }
            assert(n.usages@.subrange(0, n.usages@.len() as int) =~= n.usages@);
            out.push(CollectionNode { ids: n.ids, usages, kind: n.kind, children: kids });
            id = id + 1;
        }
        TopLevelCollection { nodes: out }
    }

    /// The node for the whole top-level collection.
    pub fn get_top_node(&self) -> (r: &CollectionNode)
        requires
            self.view().len() > 0,
        ensures
            *r == self.view()[0],
    {
        &self.nodes[0]
    }

    /// The first node whose id range holds `id`.
    pub fn get_id(&self, id: u16) -> (r: Option<&CollectionNode>)
        ensures
            r is None <==> forall|i: int|
                0 <= i < self.view().len() ==> !((#[trigger] self.view()[i]).ids.start <= id
                    <= self.view()[i].ids.end),
            r matches Some(n) ==> exists|i: int|
                0 <= i < self.view().len() && *n == self.view()[i] && n.ids.start <= id
                    <= n.ids.end && forall|j: int|
                    0 <= j < i ==> !((#[trigger] self.view()[j]).ids.start <= id
                        <= self.view()[j].ids.end),
    {
        let mut i: usize = 0;
        while i < self.nodes.len()
            invariant
                i <= self.nodes@.len(),
                forall|j: int|
                    0 <= j < i ==> !((#[trigger] self.nodes@[j]).ids.start <= id
                        <= self.nodes@[j].ids.end),
            decreases self.nodes@.len() - i,
        {
            if self.nodes[i].ids.contains(&id) {
                return Some(&self.nodes[i]);
            }
            i = i + 1;
        }
        None
    }
}

/// Button capabilities (report descriptor).
#[derive(Debug)]
pub struct ButtonCaps {
    /// Usage page for all usages.
    pub usage_page: UsagePageId,
    /// Report id.
    pub report_id: u8,
    /// Data fields associated with the main item.
    pub data_fields: u16,
    /// Index of the collection the capabilities are part of.
    pub collection_id: u16,
    /// Number of reports
    pub report_count: u16,
    /// Usages.
    pub usage: ValueRange<UsageId>,
    /// String indices.
    pub string_index: ValueRange<u16>,
    /// Designators.
    pub designator: ValueRange<u16>,
    /// Data indices.
    pub data_index: ValueRange<u16>,
    /// If `true`, the value provides an absolute range, otherwise the data is relative to the
    /// previous value.
    pub is_absolute: bool,
}

/// Value capabilities (report descriptor).
#[derive(Debug)]
pub struct ValueCaps {
    /// Usage page for all usages.
    pub usage_page: UsagePageId,
    /// Report id.
    pub report_id: u8,
    /// Data fields associated with the main item.
    pub data_fields: u16,
    /// Index of the collection the capabilities are part of.
    pub collection_id: u16,
    /// Does the value have a 'null' state.
    pub has_null: bool,
    /// Unit exponent.
    pub unit_exp: u32,
    /// Unit type.
    pub units: u32,
    /// Logical value range (raw value range).
    pub logical_range: ValueRange<i32>,
    /// Physical value range (after scaling).
    pub physical_range: ValueRange<i32>,
    /// Bit size of each field.
    pub bit_size: u16,
    /// Number of reports.
    pub report_count: u16,
    /// Usages.
    pub usage: ValueRange<UsageId>,
    /// String indices.
    pub string_index: ValueRange<u16>,
    /// Designators.
    pub designator: ValueRange<u16>,
    /// Data indices.
    pub data_index: ValueRange<u16>,
    /// If `true`, the value provides an absolute range, otherwise the data is relative to the
    /// previous value.
    pub is_absolute: bool,
}

impl ValueCaps {
    /// `1` shifted left by the bit size, kept to its low 32 bits (so 0 for a bit size of 32
    /// and up).
    pub fn get_raw_value_max(&self) -> (r: u32)
        requires
            self.bit_size < 64,
        ensures
            self.bit_size < 32 ==> r == pow2(self.bit_size as nat),
            self.bit_size >= 32 ==> r == 0,
    {
        let b = self.bit_size as u64;
        let v: u64 = 1u64 << b;
        proof {
            lemma_shl_one(b);
            if b >= 32 {
                assert((1u64 << b) as u32 == 0) by (bit_vector)
                    requires
                        32 <= b < 64,
                ;
            } else {
                assert((1u64 << b) as u32 == (1u64 << b)) by (bit_vector)
                    requires
                        b < 32,
                ;
            }
        }
        v as u32
    }
}

/// The button capabilities of a usage page: the first whose collection is `collection_id`
/// (0 when none is given); for collection 0, the last of the page if none is in collection 0.
pub fn get_button_capabilities_for_page(
    caps: &[ButtonCaps],
    page: UsagePageId,
    collection_id: Option<u16>,
) -> (r: Option<&ButtonCaps>)
    ensures
        ({
            let c = match collection_id {
                Some(c) => c,
                None => 0u16,
            };
            let s = caps@;
            &&& (exists|i: int| 0 <= i < s.len() && s[i].usage_page == page && s[i].collection_id == c)
                ==> (r matches Some(x) && exists|i: int|
                0 <= i < s.len() && *x == s[i] && s[i].usage_page == page && s[i].collection_id
                    == c && forall|j: int|
                    0 <= j < i ==> !((#[trigger] s[j]).usage_page == page && s[j].collection_id == c))
            &&& !(exists|i: int| 0 <= i < s.len() && s[i].usage_page == page && s[i].collection_id == c)
                ==> match r {
                None => c != 0 || forall|i: int| 0 <= i < s.len() ==> (#[trigger] s[i]).usage_page != page,
                Some(x) => c == 0 && exists|i: int|
                    0 <= i < s.len() && *x == s[i] && s[i].usage_page == page && forall|j: int|
                        i < j < s.len() ==> (#[trigger] s[j]).usage_page != page,
            }
        }),
{
    let c: u16 = match collection_id {
        Some(c) => c,
        None => 0,
    };
    let mut ret: Option<&ButtonCaps> = None;
    let ghost mut last: int = -1;
    let mut i: usize = 0;
    while i < caps.len()
        invariant
            i <= caps@.len(),
            c == match collection_id {
                Some(c) => c,
                None => 0u16,
            },
            forall|j: int|
                0 <= j < i ==> !((#[trigger] caps@[j]).usage_page == page && caps@[j].collection_id
                    == c),
            c != 0 ==> ret is None,
            c == 0 ==> match ret {
                None => forall|j: int| 0 <= j < i ==> (#[trigger] caps@[j]).usage_page != page,
                Some(x) => 0 <= last < i && *x == caps@[last] && caps@[last].usage_page == page
                    && forall|j: int| last < j < i ==> (#[trigger] caps@[j]).usage_page != page,
            },
        decreases caps@.len() - i,
    {
        if caps[i].usage_page == page {
            if c == caps[i].collection_id {
                return Some(&caps[i]);
            } else if c == 0 {
                ret = Some(&caps[i]);
                proof {
                    last = i as int;
                }
            }
        }
        i = i + 1;
    }
    ret
}

/// The value capabilities of a usage: the first whose page is the usage's page, whose usage
/// range holds the usage, and whose collection is `collection_id` (0 when none is given);
/// for collection 0, the last such capabilities if none is in collection 0.
pub fn get_value_capabilities_for_usage(
    caps: &[ValueCaps],
    usage: Usage,
    collection_id: Option<u16>,
) -> (r: Option<&ValueCaps>)
    ensures
        ({
            let c = match collection_id {
                Some(c) => c,
                None => 0u16,
            };
            let s = caps@;
            &&& (exists|i: int| 0 <= i < s.len() && value_caps_match(s[i], usage) && s[i].collection_id == c)
                ==> (r matches Some(x) && exists|i: int|
                0 <= i < s.len() && *x == s[i] && value_caps_match(s[i], usage) && s[i].collection_id
                    == c && forall|j: int|
                    0 <= j < i ==> !(value_caps_match(#[trigger] s[j], usage) && s[j].collection_id == c))
            &&& !(exists|i: int| 0 <= i < s.len() && value_caps_match(s[i], usage) && s[i].collection_id == c)
                ==> match r {
                None => c != 0 || forall|i: int| 0 <= i < s.len() ==> !value_caps_match(#[trigger] s[i], usage),
                Some(x) => c == 0 && exists|i: int|
                    0 <= i < s.len() && *x == s[i] && value_caps_match(s[i], usage) && forall|j: int|
                        i < j < s.len() ==> !value_caps_match(#[trigger] s[j], usage),
            }
        }),
{
    let c: u16 = match collection_id {
        Some(c) => c,
        None => 0,
    };
    let mut ret: Option<&ValueCaps> = None;
    let ghost mut last: int = -1;
    let mut i: usize = 0;
    while i < caps.len()
        invariant
            i <= caps@.len(),
            c == match collection_id {
                Some(c) => c,
                None => 0u16,
            },
            forall|j: int|
                0 <= j < i ==> !(value_caps_match(#[trigger] caps@[j], usage) && caps@[j].collection_id
                    == c),
            c != 0 ==> ret is None,
            c == 0 ==> match ret {
                None => forall|j: int| 0 <= j < i ==> !value_caps_match(#[trigger] caps@[j], usage),
                Some(x) => 0 <= last < i && *x == caps@[last] && value_caps_match(caps@[last], usage)
                    && forall|j: int| last < j < i ==> !value_caps_match(#[trigger] caps@[j], usage),
            },
        decreases caps@.len() - i,
    {
        if caps[i].usage_page == usage.page && caps[i].usage.contains(&usage.usage) {
            if c == caps[i].collection_id {
                return Some(&caps[i]);
            } else if c == 0 {
                ret = Some(&caps[i]);
                proof {
                    last = i as int;
                }
            }
        }
        i = i + 1;
    }
    ret
}

/// The capabilities are for the usage's page and their usage range holds the usage.
pub open spec fn value_caps_match(v: ValueCaps, usage: Usage) -> bool {
    v.usage_page == usage.page && v.usage.start.0 <= usage.usage.0 <= v.usage.end.0
}

/// Raw, unscaled HID value.
pub enum RawValue {
    /// Raw bits and a bit size.
    Single(u32, u16),
    /// Packed values (not byte aligned) and the bit size of each.
    Array(Vec<u8>, u16),
}

/// The little-endian number made of `n` bytes of `s` from `start` on.
pub open spec fn le_value(s: Seq<u8>, start: int, n: nat) -> nat
    decreases n,
{
    if n == 0 {
        0
    } else {
        (le_value(s, start, (n - 1) as nat) + s[start + n - 1] * pow2((8 * (n - 1)) as nat)) as nat
    }
}

/// Where the value of a report starts and ends, in bits.
pub open spec fn report_bits(bit_size: u16, report: u16) -> (int, int) {
    (report * bit_size, report * bit_size + bit_size)
}

/// The whole bytes a report's value is read from: from the byte holding its first bit up to,
/// not including, the byte holding its end.
pub open spec fn report_bytes(bit_size: u16, report: u16) -> (int, int) {
    let (start, end) = report_bits(bit_size, report);
    (start / 8, end / 8 - start / 8)
}

/// A value can be read from packed bytes: the bit positions fit in 16 bits, the bit size is
/// 1 to 32, the bytes read are there, and each byte can be shifted into place in a `usize`.
pub open spec fn raw_value_readable(arr: Seq<u8>, bit_size: u16, report: u16) -> bool {
    let (start, end) = report_bits(bit_size, report);
    let (first, count) = report_bytes(bit_size, report);
    &&& end <= u16::MAX
    &&& 1 <= bit_size <= 32
    &&& first + count <= arr.len()
    &&& (count == 0 || (count - 1) * 8 < usize::BITS)
}

/// The value of a report: the little-endian number of the bytes read, shifted right by the
/// position of the first bit within its byte, and kept to `bit_size` bits.
pub open spec fn raw_array_value(arr: Seq<u8>, bit_size: u16, report: u16) -> nat {
    let (start, _) = report_bits(bit_size, report);
    let (first, count) = report_bytes(bit_size, report);
    (le_value(arr, first, count as nat) / pow2((start % 8) as nat)) % pow2(bit_size as nat)
}

/// Shifting 1 left by `b` gives `2` to the power `b`.
pub proof fn lemma_shl_one(b: u64)
    requires
        b < 64,
    ensures
        (1u64 << b) == pow2(b as nat),
{
    lemma_u64_pow2_no_overflow(b as nat);
    lemma_u64_shl_is_mul(1, b);
}

/// One step of reading a little-endian number: the next byte lands above the bits so far.
proof fn lemma_le_step(acc: u64, b: u64, s: u64, k: u64)
    requires
        s + 8 <= 64,
        b < 256,
        acc < pow2(s as nat),
        k < 8,
    ensures
        acc + b * pow2(s as nat) < pow2((s + 8) as nat),
        acc + b * pow2(s as nat) <= u64::MAX,
        ((acc >> k) | ((b << s) >> k)) == ((acc + b * pow2(s as nat)) as u64 >> k),
{
    lemma_pow2_adds(s as nat, 8);
    lemma2_to64();
    lemma_pow2_pos(s as nat);
    assert(b * pow2(s as nat) <= 255 * pow2(s as nat)) by (nonlinear_arith)
        requires
            b < 256,
    ;
    if s + 8 < 64 {
        lemma_u64_pow2_no_overflow((s + 8) as nat);
    } else {
        assert(pow2(64) == 0x1_0000_0000_0000_0000) by {
            vstd::arithmetic::power2::lemma2_to64_rest();
        }
    }
    lemma_u64_shl_is_mul(b, s);
    let one = 1u64;
    lemma_shl_one(s);
    assert(acc < (1u64 << s));
    let t = (acc + (b << s)) as u64;
    assert(((acc >> k) | ((b << s) >> k)) == (t >> k) && t == acc + (b << s)) by (bit_vector)
        requires
            s + 8 <= 64,
            b < 256,
            acc < (1u64 << s),
            t == (acc + (b << s)) as u64,
    ;
}

impl RawValue {
    /// The value of the given report: a single value as it is, or the report's bits taken
    /// out of the packed array.
    pub fn get_value(&self, report: u16) -> (r: u32)
        requires
            self matches RawValue::Array(arr, bs) ==> raw_value_readable(arr@, *bs, report),
        ensures
            match self {
                RawValue::Single(v, _) => r == *v,
                RawValue::Array(arr, bs) => r == raw_array_value(arr@, *bs, report),
            },
    {
        match self {
            RawValue::Single(val, _) => *val,
            RawValue::Array(arr, bit_size) => {
                let bit_size = *bit_size;
                let offset: u16 = report * bit_size;
                let offset_byte = (offset / 8) as usize;
                let offset_bit = offset & 0x7;
                let end: u16 = offset + bit_size;
                let end_byte = (end / 8) as usize;
                let count = end_byte - offset_byte;
                let k = offset_bit as u64;
                assert(offset_bit == offset % 8) by (bit_vector)
                    requires
                        offset_bit == offset & 0x7,
                ;
                proof {
                    assert(usize::BITS <= 64);
                }
                let mut val: u64 = 0;
                let ghost mut acc: u64 = 0;
                let mut i: usize = 0;
                proof {
                    assert(pow2(0) == 1) by {
                        lemma2_to64();
                    }
                    assert(0u64 >> k == 0) by (bit_vector);
                }
                while i < count
                    invariant
                        i <= count,
                        count == 0 || (count - 1) * 8 < usize::BITS,
                        usize::BITS <= 64,
                        offset_byte + count <= arr.len(),
                        offset_byte + count <= arr@.len(),
                        k < 8,
                        acc == le_value(arr@, offset_byte as int, i as nat),
                        acc < pow2((8 * i) as nat),
                        val == acc >> k,
                    decreases count - i,
                {
                    let byte = arr[offset_byte + i] as u64;
                    let s = (i * 8) as u64;
                    proof {
                        lemma_le_step(acc, byte, s, k);
                        assert(8 * i + 8 == s + 8);
                        assert(arr@[offset_byte + i] == byte);
                        acc = (acc + byte * pow2(s as nat)) as u64;
                    }
                    val = val | ((byte << s) >> k);
                    i = i + 1;
                }
                let sh: u32 = (32 - bit_size) as u32;
                let mask: u32 = 0xFFFF_FFFFu32 >> sh;
                let r = (#[verifier::truncate] (val as u32)) & mask;
                proof {
                    let bs = bit_size as u64;
                    lemma_u64_shr_is_div(acc, k);
                    lemma_shl_one(bs);
                    lemma_u64_low_bits_mask_is_mod(val, bs as nat);
                    lemma_pow2_pos(bs as nat);
                    assert(low_bits_mask(bs as nat) == pow2(bs as nat) - 1);
                    let m = ((1u64 << bs) - 1) as u64;
                    assert(((val as u32) & (0xFFFF_FFFFu32 >> sh)) as u64 == val & m) by (bit_vector)
                        requires
                            1 <= bs <= 32,
                            sh + bs == 32,
                            m == ((1u64 << bs) - 1) as u64,
                    ;
                }
                r
            },
        }
    }


    /// The packed bytes of an array value.
    pub fn get_arr(&self) -> (r: Option<&[u8]>)
        ensures
            match self {
                RawValue::Single(_, _) => r is None,
                RawValue::Array(v, _) => r matches Some(a) && a@ == v@,
            },
    {
        match self {
            RawValue::Single(_, _) => None,
            RawValue::Array(vec, _) => Some(vec.as_slice()),
        }
    }
}

} // verus!
