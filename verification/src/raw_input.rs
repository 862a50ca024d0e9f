//! What a raw input device's name and type say of its HID identity: the vendor and product
//! ids written after `VID_` and `PID_` in the name, and the usage of a mouse or a keyboard.
use vstd::prelude::*;
use crate::text::{bytes_of, byte_at, byte_len};
use crate::name_filter::{find_sub_from, occurs_at};
use crate::hid_usages::{Usage, UsageId, UsagePageId};

verus! {

/// The tag `?ID_` whose first letter is `first`: `VID_` or `PID_`.
pub open spec fn id_tag(first: u8) -> Seq<u8> {
    seq![first, 0x49u8, 0x44u8, 0x5fu8]
}

/// The value of a hexadecimal digit, either case.
pub open spec fn hex_digit_value(c: u8) -> Option<u16> {
    if 0x30 <= c <= 0x39 {
        Some((c - 0x30) as u16)
    } else if 0x41 <= c <= 0x46 {
        Some((c - 0x41 + 10) as u16)
    } else if 0x61 <= c <= 0x66 {
        Some((c - 0x61 + 10) as u16)
    } else {
        None
    }
}

/// The number four bytes write in hexadecimal, as `u16::from_str_radix` reads them: four
/// digits, or a `+` and three digits.
pub open spec fn hex_field(s: Seq<u8>) -> Option<u16> {
    if s.len() != 4 {
        None
    } else if s[0] == 0x2b {
        match (hex_digit_value(s[1]), hex_digit_value(s[2]), hex_digit_value(s[3])) {
            (Some(a), Some(b), Some(c)) => Some((a * 256 + b * 16 + c) as u16),
            _ => None,
        }
    } else {
        match (hex_digit_value(s[0]), hex_digit_value(s[1]), hex_digit_value(s[2]), hex_digit_value(s[3])) {
            (Some(a), Some(b), Some(c), Some(d)) => Some((a * 4096 + b * 256 + c * 16 + d) as u16),
            _ => None,
        }
    }
}

/// The id after the first `?ID_` tag of a device name: the four bytes that follow it, read
/// in hexadecimal; none where there is no tag, fewer than four bytes follow it, or they are
/// no number.
pub open spec fn tagged_id(b: Seq<u8>, first: u8) -> Option<u16> {
    let i = find_sub_from(b, id_tag(first), 0);
    if i < 0 || i + 8 > b.len() {
        None
    } else {
        hex_field(b.subrange(i + 4, i + 8))
    }
}

/// The vendor and product ids of a device name: after `VID_` and after `PID_`.
pub open spec fn device_name_ids(b: Seq<u8>) -> Option<(u16, u16)> {
    match tagged_id(b, 0x56) {
        None => None,
        Some(vid) => match tagged_id(b, 0x50) {
            None => None,
            Some(pid) => Some((vid, pid)),
        },
    }
}

/// The value of a hexadecimal digit, either case.
fn hex_digit(c: u8) -> (r: Option<u16>)
    ensures
        r == hex_digit_value(c),
{
    if 0x30 <= c && c <= 0x39 {
        Some((c - 0x30) as u16)
    } else if 0x41 <= c && c <= 0x46 {
        Some((c - 0x41 + 10) as u16)
    } else if 0x61 <= c && c <= 0x66 {
        Some((c - 0x61 + 10) as u16)
    } else {
        None
    }
}

/// The first index of the tag `?ID_` whose first letter is `first`, if the name holds it.
fn find_id_tag(name: &str, first: u8) -> (r: Option<usize>)
    ensures
        match r {
            Some(i) => i == find_sub_from(bytes_of(name), id_tag(first), 0),
            None => find_sub_from(bytes_of(name), id_tag(first), 0) == -1,
        },
{
    let ghost b = bytes_of(name);
    let ghost t = id_tag(first);
    let n = byte_len(name);
    if n < 4 {
        return None;
    }
    let mut i: usize = 0;
    loop
        invariant
            n == b.len(),
            b == bytes_of(name),
            t == id_tag(first),
            4 <= n,
            i <= n - 4,
            find_sub_from(b, t, 0) == find_sub_from(b, t, i as int),
        decreases n - 4 - i,
    {
        if byte_at(name, i) == first && byte_at(name, i + 1) == 0x49 && byte_at(name, i + 2) == 0x44
            && byte_at(name, i + 3) == 0x5f {
            proof {
                assert(b.subrange(i as int, i + 4) =~= t);
                assert(occurs_at(b, t, i as int));
            }
            return Some(i);
        }
        proof {
            if b.subrange(i as int, i + 4) == t {
                assert(b.subrange(i as int, i + 4)[0] == b[i as int]);
                assert(b.subrange(i as int, i + 4)[1] == b[i + 1]);
                assert(b.subrange(i as int, i + 4)[2] == b[i + 2]);
                assert(b.subrange(i as int, i + 4)[3] == b[i + 3]);
            }
            assert(!occurs_at(b, t, i as int));
        }
        if i == n - 4 {
            proof {
                assert(find_sub_from(b, t, i + 1) == -1);
            }
            return None;
        }
        i = i + 1;
    }
}

/// The id after the first `?ID_` tag of a device name, read in hexadecimal.
fn tagged_id_exec(name: &str, first: u8) -> (r: Option<u16>)
    ensures
        r == tagged_id(bytes_of(name), first),
{
    let ghost b = bytes_of(name);
    let n = byte_len(name);
    match find_id_tag(name, first) {
        None => None,
        Some(i) => {
            if i > n || n - i < 8 {
                return None;
            }
            let ghost s = b.subrange(i + 4, i + 8);
            let c0 = byte_at(name, i + 4);
            let c1 = byte_at(name, i + 5);
            let c2 = byte_at(name, i + 6);
            let c3 = byte_at(name, i + 7);
            proof {
                assert(s[0] == c0 && s[1] == c1 && s[2] == c2 && s[3] == c3);
            }
            if c0 == 0x2b {
                match (hex_digit(c1), hex_digit(c2), hex_digit(c3)) {
                    (Some(a), Some(b1), Some(c)) => Some(a * 256 + b1 * 16 + c),
                    _ => None,
                }
            } else {
                match (hex_digit(c0), hex_digit(c1), hex_digit(c2), hex_digit(c3)) {
                    (Some(a), Some(b1), Some(c), Some(d)) => Some(a * 4096 + b1 * 256 + c * 16 + d),
                    _ => None,
                }
            }
        },
    }
}

/// The vendor and product ids written in a raw input device's name, after `VID_` and after
/// `PID_`, each four hexadecimal digits; `None` where either is missing or is no number.
pub fn vid_pid_from_device_name(dev_name: &str) -> (r: Option<(u16, u16)>)
    ensures
        r == device_name_ids(bytes_of(dev_name)),
{
    match tagged_id_exec(dev_name, 0x56) {
        None => None,
        Some(vid) => match tagged_id_exec(dev_name, 0x50) {
            None => None,
            Some(pid) => Some((vid, pid)),
        },
    }
}

/// The usage a raw input mouse or keyboard stands for: generic desktop mouse (2) or
/// keyboard (6).
pub fn raw_input_usage(is_mouse: bool) -> (r: Usage)
    ensures
        r == (Usage { page: UsagePageId(1), usage: UsageId(if is_mouse { 2u16 } else { 6u16 }) }),
{
    let usage: u16 = if is_mouse {
        2
    } else {
        6
    };
    Usage::from_u16(1, usage)
}

} // verus!
