//! Numbers as text: decimal, zero-padded decimal, and four upper-case hexadecimal digits.
use vstd::prelude::*;

verus! {

/// Appends `text` to `s` with `String::push_str`; the contract claims that the characters of
/// `s` afterwards are its characters before, followed by those of `text`.
#[verifier::external_body]
pub(crate) fn string_push_str(s: &mut String, text: &str)
    ensures
        final(s)@ == old(s)@ + text@,
{
    s.push_str(text);
}

/// Appends the character `c` to `s` with `String::push`; the contract claims that the
/// characters of `s` afterwards are its characters before, followed by `c`.
#[verifier::external_body]
pub(crate) fn string_push(s: &mut String, c: char)
    ensures
        final(s)@ == old(s)@.push(c),
{
    s.push(c);
}

/// The character of a digit below sixteen, upper case past nine.
pub open spec fn digit(d: nat) -> char {
    if d == 0 {
        '0'
    } else if d == 1 {
        '1'
    } else if d == 2 {
        '2'
    } else if d == 3 {
        '3'
    } else if d == 4 {
        '4'
    } else if d == 5 {
        '5'
    } else if d == 6 {
        '6'
    } else if d == 7 {
        '7'
    } else if d == 8 {
        '8'
    } else if d == 9 {
        '9'
    } else if d == 10 {
        'A'
    } else if d == 11 {
        'B'
    } else if d == 12 {
        'C'
    } else if d == 13 {
        'D'
    } else if d == 14 {
        'E'
    } else {
        'F'
    }
}

/// The decimal digits of `n`, without leading zeros.
pub open spec fn decimal(n: nat) -> Seq<char>
    decreases n,
{
    if n < 10 {
        seq![digit(n)]
    } else {
        decimal(n / 10).push(digit(n % 10))
    }
}

/// `s` with zeros in front, up to `width` characters.
pub open spec fn zero_pad(s: Seq<char>, width: nat) -> Seq<char> {
    if s.len() < width {
        Seq::new((width - s.len()) as nat, |i: int| '0') + s
    } else {
        s
    }
}

/// The four upper-case hexadecimal digits of `n`.
pub open spec fn hex4(n: u16) -> Seq<char> {
    seq![digit(n as nat / 4096), digit((n as nat / 256) % 16), digit((n as nat / 16) % 16), digit(n as nat % 16)]
}

/// The character of a digit below sixteen.
fn digit_char(d: u64) -> (c: char)
    requires
        d < 16,
    ensures
        c == digit(d as nat),
{
    match d {
        0 => '0',
        1 => '1',
        2 => '2',
        3 => '3',
        4 => '4',
        5 => '5',
        6 => '6',
        7 => '7',
        8 => '8',
        9 => '9',
        10 => 'A',
        11 => 'B',
        12 => 'C',
        13 => 'D',
        14 => 'E',
        _ => 'F',
    }
}

/// Appends the decimal digits of `n` to `s`.
pub fn push_decimal(s: &mut String, n: u64)
    ensures
        final(s)@ == old(s)@ + decimal(n as nat),
    decreases n,
{
    if n >= 10 {
        push_decimal(s, n / 10);
    }
    string_push(s, digit_char(n % 10));
    proof {
        if n >= 10 {
            assert(old(s)@ + decimal(n as nat / 10) + seq![digit(n as nat % 10)] =~= old(s)@ + decimal(n as nat));
        } else {
            assert(old(s)@.push(digit(n as nat)) =~= old(s)@ + decimal(n as nat));
        }
    }
}

/// Ten to the power `k`.
pub open spec fn pow10(k: nat) -> nat
    decreases k,
{
    if k == 0 {
        1
    } else {
        10 * pow10((k - 1) as nat)
    }
}

/// A number below ten to the power `k` has at most `k` decimal digits.
proof fn lemma_decimal_len_bound(n: nat, k: nat)
    requires
        k >= 1,
        n < pow10(k),
    ensures
        decimal(n).len() <= k,
    decreases n,
{
    if n >= 10 {
        let k1 = (k - 1) as nat;
        if k == 1 {
            assert(pow10(1) == 10 * pow10(0));
        }
        assert(k1 >= 1);
        assert(n / 10 < pow10(k1)) by (nonlinear_arith)
            requires
                n < 10 * pow10(k1),
        ;
        lemma_decimal_len_bound(n / 10, k1);
    }
}

/// The number of decimal digits of `n`.
fn decimal_len(n: u64) -> (r: usize)
    ensures
        r == decimal(n as nat).len(),
    decreases n,
{
    if n < 10 {
        1
    } else {
        let d = decimal_len(n / 10);
        proof {
            reveal_with_fuel(pow10, 21);
            assert(pow10(20) == 100000000000000000000);
            lemma_decimal_len_bound((n / 10) as nat, 20);
        }
        1 + d
    }
}

/// Appends the decimal digits of `n` to `s`, with zeros in front up to `width` characters.
pub fn push_padded_decimal(s: &mut String, n: u64, width: usize)
    ensures
        final(s)@ == old(s)@ + zero_pad(decimal(n as nat), width as nat),
{
    let len = decimal_len(n);
    let mut i: usize = len;
    while i < width
        invariant
            len == decimal(n as nat).len(),
            len <= i,
            i <= width || len > width,
            len >= width ==> i == len,
            s@ == old(s)@ + Seq::new((i - len) as nat, |k: int| '0'),
        decreases width - i,
    {
        string_push(s, '0');
        proof {
            assert(old(s)@ + Seq::new((i - len) as nat, |k: int| '0') + seq!['0'] =~= old(s)@ + Seq::new(
                (i + 1 - len) as nat,
                |k: int| '0',
            ));
        }
        i = i + 1;
    }
    push_decimal(s, n);
    proof {
        if len < width {
            assert(i == width);
            assert(old(s)@ + Seq::new((width - len) as nat, |k: int| '0') + decimal(n as nat) =~= old(s)@
                + zero_pad(decimal(n as nat), width as nat));
        } else {
            assert(Seq::new((i - len) as nat, |k: int| '0') =~= Seq::<char>::empty());
            assert(old(s)@ + Seq::<char>::empty() + decimal(n as nat) =~= old(s)@ + zero_pad(
                decimal(n as nat),
                width as nat,
            ));
        }
    }
}

/// The decimal digits of `n`, after a minus sign where it is negative.
pub open spec fn signed_decimal(n: int) -> Seq<char> {
    if n < 0 {
        seq!['-'] + decimal((-n) as nat)
    } else {
        decimal(n as nat)
    }
}

/// Appends the decimal digits of `n` to `s`, after a minus sign where it is negative.
pub fn push_signed_decimal(s: &mut String, n: i32)
    ensures
        final(s)@ == old(s)@ + signed_decimal(n as int),
{
    if n < 0 {
        string_push(s, '-');
        let m: i64 = -(n as i64);
        push_decimal(s, m as u64);
        assert(s@ =~= old(s)@ + signed_decimal(n as int));
    } else {
        push_decimal(s, n as u64);
    }
}

/// Appends the four upper-case hexadecimal digits of `n` to `s`.
pub fn push_hex4(s: &mut String, n: u16)
    ensures
        final(s)@ == old(s)@ + hex4(n),
{
    let v: u64 = n as u64;
    string_push(s, digit_char(v / 4096));
    string_push(s, digit_char((v / 256) % 16));
    string_push(s, digit_char((v / 16) % 16));
    string_push(s, digit_char(v % 16));
    assert(s@ =~= old(s)@ + hex4(n));
}

} // verus!
