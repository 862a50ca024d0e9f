//! Byte-level helpers on string slices.
//!
//! Every delimiter this crate cares about (`/`, `\`, `:`, `<`, `>`, `.`, `*`, `?`) is an
//! ASCII byte, so cutting a string right before or right after such a byte always lands on
//! a character boundary.  The helpers here carry that argument once.
use vstd::prelude::*;
use vstd::utf8::*;
use vstd::string::*;

verus! {

broadcast use {
    vstd::utf8::encode_utf8_valid_utf8,
    vstd::utf8::is_char_boundary_start_end_of_seq,
    vstd::utf8::is_char_boundary_iff_not_is_continuation_byte,
    vstd::utf8::valid_utf8_split,
};

/// The UTF-8 bytes of a string slice.
pub open spec fn bytes_of(s: &str) -> Seq<u8> {
    s.spec_bytes()
}

/// An ASCII byte.
pub open spec fn is_ascii_byte(b: u8) -> bool {
    b < 0x80
}

/// `i` is a place where a string with these bytes may be cut.
pub open spec fn cut_ok(b: Seq<u8>, i: int) -> bool {
    &&& 0 <= i <= b.len()
    &&& (i == 0 || i == b.len() || is_ascii_byte(b[i]) || is_ascii_byte(b[i - 1]))
}

/// The bytes of any string slice are valid UTF-8.
pub proof fn lemma_str_valid(s: &str)
    ensures
        valid_utf8(bytes_of(s)),
{
}

/// In valid UTF-8, the position right after an ASCII byte is a character boundary.
pub proof fn lemma_boundary_after_ascii(b: Seq<u8>, i: int)
    requires
        valid_utf8(b),
        0 <= i < b.len(),
        is_ascii_byte(b[i]),
    ensures
        is_char_boundary(b, i + 1),
{
    assert(!is_continuation_byte(b[i]));
    assert(is_char_boundary(b, i));
    let rest = b.subrange(i, b.len() as int);
    assert(valid_utf8(rest));
    assert(rest[0] == b[i]);
    assert(valid_first_scalar(rest));
    assert(length_of_first_scalar(rest) == 1);
    let tail = pop_first_scalar(rest);
    assert(valid_utf8(tail));
    if i + 1 < b.len() {
        assert(tail.len() > 0);
        assert(tail[0] == b[i + 1]);
        assert(valid_first_scalar(tail));
        assert(!is_continuation_byte(b[i + 1]));
    }
}

/// Every place accepted by `cut_ok` is a character boundary.
pub proof fn lemma_cut_ok_boundary(b: Seq<u8>, i: int)
    requires
        valid_utf8(b),
        cut_ok(b, i),
    ensures
        is_char_boundary(b, i),
{
    if i == 0 || i == b.len() {
    } else if is_ascii_byte(b[i]) {
        assert(!is_continuation_byte(b[i]));
    } else {
        lemma_boundary_after_ascii(b, i - 1);
    }
}

/// The byte at index `i`.
pub fn byte_at(s: &str, i: usize) -> (r: u8)
    requires
        i < bytes_of(s).len(),
    ensures
        r == bytes_of(s)[i as int],
{
    s.as_bytes()[i]
}

/// The number of bytes of a string slice.
pub fn byte_len(s: &str) -> (r: usize)
    ensures
        r == bytes_of(s).len(),
{
    s.as_bytes().len()
}

/// The part of `s` between the byte positions `from` and `to`.
pub fn substr<'a>(s: &'a str, from: usize, to: usize) -> (r: &'a str)
    requires
        from <= to,
        cut_ok(bytes_of(s), from as int),
        cut_ok(bytes_of(s), to as int),
    ensures
        bytes_of(r) == bytes_of(s).subrange(from as int, to as int),
{
    let ghost b = bytes_of(s);
    proof {
        lemma_cut_ok_boundary(b, to as int);
    }
    let (head, _) = s.split_at(to);
    let ghost h = bytes_of(head);
    assert(h == b.subrange(0, to as int));
    proof {
        assert(valid_utf8(h));
        if from < to {
            assert(h[from as int] == b[from as int]);
            if from > 0 {
                assert(h[from as int - 1] == b[from as int - 1]);
            }
            assert(cut_ok(h, from as int));
        } else {
            assert(cut_ok(h, from as int));
        }
        lemma_cut_ok_boundary(h, from as int);
    }
    let (_, r) = head.split_at(from);
    assert(bytes_of(r) =~= b.subrange(from as int, to as int));
    r
}

} // verus!
