use onca::display::{push_decimal, push_hex4, push_padded_decimal, push_signed_decimal};
use onca::hid::{CollectionKind, ValueRange, VendorCollectionType};
use onca::hid_usages::{HidUsage, HidUsagePage, Usage, UsageId, UsagePageId};
use onca::usb_vendors::{UsbDevice, UsbDeviceId, UsbVendor, UsbVendorId, VendorProduct};

#[test]
fn numbers_as_text() {
    let mut s = String::new();
    push_decimal(&mut s, 0);
    assert_eq!(s, "0");
    let mut s = String::from("n=");
    push_decimal(&mut s, 1234567890);
    assert_eq!(s, "n=1234567890");
    let mut s = String::new();
    push_decimal(&mut s, u64::MAX);
    assert_eq!(s, u64::MAX.to_string());
    let mut s = String::new();
    push_padded_decimal(&mut s, 42, 4);
    assert_eq!(s, "0042");
    let mut s = String::new();
    push_padded_decimal(&mut s, 123456, 4);
    assert_eq!(s, "123456");
    let mut s = String::new();
    push_signed_decimal(&mut s, -2147483648);
    assert_eq!(s, "-2147483648");
    let mut s = String::new();
    push_signed_decimal(&mut s, 7);
    assert_eq!(s, "7");
    let mut s = String::new();
    push_hex4(&mut s, 0x0ce6);
    assert_eq!(s, "0CE6");
    let mut s = String::new();
    push_hex4(&mut s, 0xFFFF);
    assert_eq!(s, "FFFF");
}

#[test]
fn collection_kinds_as_text() {
    assert_eq!(CollectionKind::Physical.to_string(), "Physical");
    assert_eq!(CollectionKind::UsageModified.to_string(), "UsageModify");
    let vendor = VendorCollectionType::new(0x85).unwrap();
    assert_eq!(vendor.to_string(), "133");
    assert_eq!(CollectionKind::Vendor(vendor).to_string(), "Vendor(133)");
    assert_eq!(ValueRange { start: 3u16, end: 250u16 }.to_string(), "[3:250]");
    assert_eq!(ValueRange { start: -127i32, end: 127i32 }.to_string(), "[-127:127]");
}

#[test]
fn usages_as_text() {
    static USAGES: [HidUsage<'static>; 2] = [
        HidUsage { id: UsageId(0x02), name: "Mouse" },
        HidUsage { id: UsageId(0x30), name: "X" },
    ];
    static PAGES: [HidUsagePage<'static>; 2] = [
        HidUsagePage { id: UsagePageId(0x01), name: "Generic Desktop", usages: Some(&USAGES) },
        HidUsagePage { id: UsagePageId(0x09), name: "Button", usages: None },
    ];
    assert_eq!(Usage::from_u16(0x01, 0x30).to_string(&PAGES), "{ page: \"Generic Desktop\", usage: \"X\" }");
    assert_eq!(Usage::from_u16(0x01, 0x31).to_string(&PAGES), "{ page: \"Generic Desktop\", usage: 0031 }");
    assert_eq!(Usage::from_u16(0x09, 0x01).to_string(&PAGES), "{ page: \"Button\", usage: 0001 }");
    assert_eq!(Usage::from_u16(0xFF00, 0x22).to_string(&PAGES), "{ page: FF00 usage: 0022 }");
}

#[test]
fn vendor_products_as_text() {
    static DEVICES: [UsbDevice<'static>; 1] = [UsbDevice { id: UsbDeviceId(0x0ce6), name: "DualSense" }];
    static VENDORS: [UsbVendor<'static>; 2] = [
        UsbVendor { id: UsbVendorId(0x045e), name: "Microsoft", devices: None },
        UsbVendor { id: UsbVendorId(0x054c), name: "Sony", devices: Some(&DEVICES) },
    ];
    assert_eq!(VendorProduct::from_u16(0x054c, 0x0ce6).to_string(&VENDORS), "{ Sony DualSense }");
    assert_eq!(VendorProduct::from_u16(0x054c, 0x0ce7).to_string(&VENDORS), "{ vendor: Sony, product: 0x0CE7 }");
    assert_eq!(VendorProduct::from_u16(0x045e, 0x028e).to_string(&VENDORS), "{ vendor: Microsoft, product: 0x028E }");
    assert_eq!(VendorProduct::from_u16(0x1234, 0xabcd).to_string(&VENDORS), "{ vendor: 0x1234, product: 0xABCD }");
    assert_eq!(UsbVendorId(0x054c).to_string(), "0x1356");
    assert_eq!(UsbDeviceId(7).to_string(), "0x0007");
}
