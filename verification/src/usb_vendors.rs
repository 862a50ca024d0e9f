//! USB vendors and their devices, looked up in tables sorted by id.
use vstd::prelude::*;
use crate::display::{decimal, hex4, push_hex4, push_padded_decimal, string_push_str, zero_pad};

verus! {

/// The id of a USB vendor.
#[derive(Clone, Copy, PartialEq, Eq, Debug, Hash, Structural)]
pub struct UsbVendorId(pub u16);

impl UsbVendorId {
    /// The id as it is displayed: `0x`, then its decimal digits, zero-padded to four.
    pub fn to_string(&self) -> (r: String)
        ensures
            r@ == "0x"@ + zero_pad(decimal(self.0 as nat), 4),
    {
        let mut s = String::new();
        string_push_str(&mut s, "0x");
        push_padded_decimal(&mut s, self.0 as u64, 4);
        s
    }

    pub fn new(id: u16) -> (r: Self)
        ensures
            r.0 == id,
    {
        Self(id)
    }

    pub fn as_u16(self) -> (r: u16)
        ensures
            r == self.0,
    {
        self.0
    }
}

/// The id of a USB device of a vendor.
#[derive(Clone, Copy, PartialEq, Eq, Debug, Hash, Structural)]
pub struct UsbDeviceId(pub u16);

impl UsbDeviceId {
    /// The id as it is displayed: `0x`, then its decimal digits, zero-padded to four.
    pub fn to_string(&self) -> (r: String)
        ensures
            r@ == "0x"@ + zero_pad(decimal(self.0 as nat), 4),
    {
        let mut s = String::new();
        string_push_str(&mut s, "0x");
        push_padded_decimal(&mut s, self.0 as u64, 4);
        s
    }

    pub fn new(id: u16) -> (r: Self)
        ensures
            r.0 == id,
    {
        Self(id)
    }

    pub fn as_u16(self) -> (r: u16)
        ensures
            r == self.0,
    {
        self.0
    }
}

/// A named USB device.
#[derive(Debug)]
pub struct UsbDevice<'a> {
    pub id: UsbDeviceId,
    pub name: &'a str,
}

/// A named USB vendor, with its devices sorted by id.
#[derive(Debug)]
pub struct UsbVendor<'a> {
    pub id: UsbVendorId,
    pub name: &'a str,
    pub devices: Option<&'a [UsbDevice<'a>]>,
}

/// The ids of the vendors strictly increase.
pub open spec fn vendors_sorted(s: Seq<UsbVendor>) -> bool {
    forall|i: int, j: int| 0 <= i < j < s.len() ==> s[i].id.0 < s[j].id.0
}

/// The ids of the devices strictly increase.
pub open spec fn devices_sorted(s: Seq<UsbDevice>) -> bool {
    forall|i: int, j: int| 0 <= i < j < s.len() ==> s[i].id.0 < s[j].id.0
}

/// The vendor with the given id in a table, if there is one.
pub open spec fn vendor_in(s: Seq<UsbVendor>, id: UsbVendorId) -> bool {
    exists|i: int| 0 <= i < s.len() && s[i].id == id
}

/// The vendor has a device with this id and name.
pub open spec fn names_device(v: UsbVendor, id: UsbDeviceId, name: Seq<char>) -> bool {
    v.devices matches Some(d) && exists|j: int|
        0 <= j < d@.len() && (#[trigger] d@[j]).id == id && d@[j].name@ == name
}

impl<'a> UsbVendor<'a> {
    /// Find the vendor with the given id in a table sorted by id; `None` when the id does not
    /// name a vendor.
    pub fn new(vendors: &'a [UsbVendor<'a>], vendor_id: UsbVendorId) -> (r: Option<&'a UsbVendor<'a>>)
        requires
            vendors_sorted(vendors@),
        ensures
            r is None <==> !vendor_in(vendors@, vendor_id),
            r matches Some(v) ==> exists|i: int| 0 <= i < vendors@.len() && vendors@[i] == *v && v.id
                == vendor_id,
    {
        let key = vendor_id.0;
        let mut lo: usize = 0;
        let mut hi: usize = vendors.len();
        while lo < hi
            invariant
                lo <= hi <= vendors@.len(),
                vendors_sorted(vendors@),
                key == vendor_id.0,
                forall|i: int| 0 <= i < lo ==> vendors@[i].id.0 < key,
                forall|i: int| hi <= i < vendors@.len() ==> vendors@[i].id.0 > key,
            decreases hi - lo,
        {
            let mid = lo + (hi - lo) / 2;
            let id = vendors[mid].id.0;
            if id == key {
                assert(vendors@[mid as int].id == vendor_id);
                return Some(&vendors[mid]);
            } else if id < key {
                lo = mid + 1;
            } else {
                hi = mid;
            }
        }
        None
    }

    /// Find the device with the given id among the vendor's devices; `None` when the vendor has
    /// no devices or the id does not name one.
    pub fn get_device(&self, device_id: UsbDeviceId) -> (r: Option<&UsbDevice<'a>>)
        requires
            self.devices matches Some(d) ==> devices_sorted(d@),
        ensures
            r is None <==> match self.devices {
                None => true,
                Some(d) => forall|i: int| 0 <= i < d@.len() ==> d@[i].id != device_id,
            },
            r matches Some(x) ==> self.devices matches Some(d) && exists|i: int|
                0 <= i < d@.len() && d@[i] == *x && x.id == device_id,
    {
        match self.devices {
            None => None,
            Some(devices) => {
                let key = device_id.0;
                let mut lo: usize = 0;
                let mut hi: usize = devices.len();
                while lo < hi
                    invariant
                        lo <= hi <= devices@.len(),
                        devices_sorted(devices@),
                        key == device_id.0,
                        self.devices == Some(devices),
                        forall|i: int| 0 <= i < lo ==> devices@[i].id.0 < key,
                        forall|i: int| hi <= i < devices@.len() ==> devices@[i].id.0 > key,
                    decreases hi - lo,
                {
                    let mid = lo + (hi - lo) / 2;
                    let id = devices[mid].id.0;
                    if id == key {
                        assert(devices@[mid as int].id == device_id);
                        assert(self.devices->0@[mid as int] == devices[mid as int]);
                        assert(exists|i: int|
                            0 <= i < devices@.len() && devices@[i] == devices[mid as int]
                                && devices@[i].id == device_id);
                        return Some(&devices[mid]);
                    } else if id < key {
                        lo = mid + 1;
                    } else {
                        hi = mid;
                    }
                }
                None
            },
        }
    }
}

/// A vendor and one of its products.
#[derive(Clone, Copy, PartialEq, Eq, Debug, Hash, Structural)]
pub struct VendorProduct {
    pub vendor: UsbVendorId,
    pub device: UsbDeviceId,
}

impl VendorProduct {
    pub fn new(vendor: UsbVendorId, device: UsbDeviceId) -> (r: Self)
        ensures
            r.vendor == vendor,
            r.device == device,
    {
        Self { vendor, device }
    }

    pub fn from_u16(vendor: u16, device: u16) -> (r: Self)
        ensures
            r.vendor.0 == vendor,
            r.device.0 == device,
    {
        Self::new(UsbVendorId(vendor), UsbDeviceId(device))
    }

    /// The name of the vendor, looked up in a table sorted by id.
    pub fn get_vendor_string(&self, vendors: &[UsbVendor]) -> (r: Option<String>)
        requires
            vendors_sorted(vendors@),
        ensures
            r is None <==> !vendor_in(vendors@, self.vendor),
            r matches Some(s) ==> exists|i: int|
                0 <= i < vendors@.len() && vendors@[i].id == self.vendor && s@ == vendors@[i].name@,
    {
        match UsbVendor::new(vendors, self.vendor) {
            Some(vendor) => Some(vendor.name.to_owned()),
            None => None,
        }
    }

    /// The name of the device, looked up in a table of vendors sorted by id, each with its
    /// devices sorted by id.
    pub fn get_device_string(&self, vendors: &[UsbVendor]) -> (r: Option<String>)
        requires
            vendors_sorted(vendors@),
            forall|i: int|
                0 <= i < vendors@.len() ==> ((#[trigger] vendors@[i]).devices matches Some(d)
                    ==> devices_sorted(d@)),
        ensures
            r matches Some(s) ==> exists|i: int|
                0 <= i < vendors@.len() && (#[trigger] vendors@[i]).id == self.vendor
                    && names_device(vendors@[i], self.device, s@),
            r is None <==> (forall|i: int|
                0 <= i < vendors@.len() && vendors@[i].id == self.vendor ==> match vendors@[i].devices {
                    None => true,
                    Some(d) => forall|j: int| 0 <= j < d@.len() ==> d@[j].id != self.device,
                }),
    {
        match UsbVendor::new(vendors, self.vendor) {
            Some(vendor) => match vendor.get_device(self.device) {
                Some(device) => Some(device.name.to_owned()),
                None => None,
            },
            None => None,
        }
    }
}

/// The name of the device with id `id` of a vendor, if the vendor has one.
pub open spec fn device_name_of(v: UsbVendor, id: UsbDeviceId) -> Option<Seq<char>> {
    match v.devices {
        Some(d) => if exists|j: int| 0 <= j < d@.len() && d@[j].id == id {
            Some(d@[choose|j: int| 0 <= j < d@.len() && d@[j].id == id].name@)
        } else {
            None
        },
        None => None,
    }
}

/// The text a vendor and product are displayed with when the vendor has a name: both names,
/// or the vendor's name and the product's id in hexadecimal.
pub open spec fn named_vendor_product_text(v: UsbVendor, device: UsbDeviceId) -> Seq<char> {
    match device_name_of(v, device) {
        Some(name) => "{ "@ + v.name@ + " "@ + name + " }"@,
        None => "{ vendor: "@ + v.name@ + ", product: 0x"@ + hex4(device.0) + " }"@,
    }
}

/// The text a vendor and product are displayed with when the vendor has no name: both ids
/// in hexadecimal.
pub open spec fn unnamed_vendor_product_text(vp: VendorProduct) -> Seq<char> {
    "{ vendor: 0x"@ + hex4(vp.vendor.0) + ", product: 0x"@ + hex4(vp.device.0) + " }"@
}

impl VendorProduct {
    /// The vendor and product as they are displayed, with their names looked up in a table
    /// of vendors sorted by id, each with its devices sorted by id.
    pub fn to_string(&self, vendors: &[UsbVendor]) -> (r: String)
        requires
            vendors_sorted(vendors@),
            forall|i: int|
                0 <= i < vendors@.len() ==> ((#[trigger] vendors@[i]).devices matches Some(d)
                    ==> devices_sorted(d@)),
        ensures
            !vendor_in(vendors@, self.vendor) ==> r@ == unnamed_vendor_product_text(*self),
            forall|i: int|
                0 <= i < vendors@.len() && (#[trigger] vendors@[i]).id == self.vendor ==> r@
                    == named_vendor_product_text(vendors@[i], self.device),
    {
        match UsbVendor::new(vendors, self.vendor) {
            Some(vendor) => {
                let ghost i0 = choose|i: int| 0 <= i < vendors@.len() && vendors@[i] == *vendor && vendor.id == self.vendor;
                proof {
                    assert forall|i: int| 0 <= i < vendors@.len() && (#[trigger] vendors@[i]).id == self.vendor implies i == i0 by {
                        if i < i0 {
                            assert(vendors@[i].id.0 < vendors@[i0].id.0);
                        } else if i > i0 {
                            assert(vendors@[i0].id.0 < vendors@[i].id.0);
                        }
                    }
                    assert(vendor.devices matches Some(d) ==> devices_sorted(d@));
                }
                let mut s = String::new();
                match vendor.get_device(self.device) {
                    Some(device) => {
                        proof {
                            let d = vendor.devices->0;
                            let j0 = choose|j: int| 0 <= j < d@.len() && d@[j] == *device && device.id == self.device;
                            let j1 = choose|j: int| 0 <= j < d@.len() && d@[j].id == self.device;
                            if j0 < j1 {
                                assert(d@[j0].id.0 < d@[j1].id.0);
                            } else if j1 < j0 {
                                assert(d@[j1].id.0 < d@[j0].id.0);
                            }
                            assert(device_name_of(*vendor, self.device) == Some(device.name@));
                        }
                        string_push_str(&mut s, "{ ");
                        string_push_str(&mut s, vendor.name);
                        string_push_str(&mut s, " ");
                        string_push_str(&mut s, device.name);
                        string_push_str(&mut s, " }");
                        assert(s@ =~= named_vendor_product_text(*vendor, self.device));
                    },
                    None => {
                        string_push_str(&mut s, "{ vendor: ");
                        string_push_str(&mut s, vendor.name);
                        string_push_str(&mut s, ", product: 0x");
                        push_hex4(&mut s, self.device.0);
                        string_push_str(&mut s, " }");
                        assert(s@ =~= named_vendor_product_text(*vendor, self.device));
                    },
                }
                s
            },
            None => {
                let mut s = String::new();
                string_push_str(&mut s, "{ vendor: 0x");
                push_hex4(&mut s, self.vendor.0);
                string_push_str(&mut s, ", product: 0x");
                push_hex4(&mut s, self.device.0);
                string_push_str(&mut s, " }");
                assert(s@ =~= unnamed_vendor_product_text(*self));
                s
            },
        }
    }
}

} // verus!
