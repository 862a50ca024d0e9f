//! Filters on file names: everything, one exact name, or a pattern with `*` wildcards.
use vstd::prelude::*;
use vstd::utf8::{encode_utf8, is_char_boundary};
use crate::text::{bytes_of, byte_at, byte_len, substr};
use crate::vfs_parts::{find_byte, lemma_find_byte, find_byte_from};
use crate::path_component::str_eq;

verus! {

/// The UTF-8 bytes of a string.
pub open spec fn sbytes(s: String) -> Seq<u8> {
    encode_utf8(s@)
}

/// A filter on file names.
pub enum NameFilter {
    /// Every name passes.
    Any,
    /// Only this name passes.
    FullName(String),
    /// Names made of the given pieces, in order, with anything between them.
    Partial { start_with: Option<String>, end_with: Option<String>, parts: Vec<String> },
}

/// A name filter, as values.
pub enum NameFilterView {
    Any,
    FullName(Seq<u8>),
    /// The start, the end and the pieces between.
    Partial(Option<Seq<u8>>, Option<Seq<u8>>, Seq<Seq<u8>>),
}

pub open spec fn opt_sbytes(o: Option<String>) -> Option<Seq<u8>> {
    match o {
        Some(s) => Some(sbytes(s)),
        None => None,
    }
}

impl View for NameFilter {
    type V = NameFilterView;

    open spec fn view(&self) -> NameFilterView {
        match self {
            NameFilter::Any => NameFilterView::Any,
            NameFilter::FullName(s) => NameFilterView::FullName(sbytes(*s)),
            NameFilter::Partial { start_with, end_with, parts } => NameFilterView::Partial(
                opt_sbytes(*start_with),
                opt_sbytes(*end_with),
                parts@.map_values(|s: String| sbytes(s)),
            ),
        }
    }
}

/// The pieces of `b` from `i` on, cut at every `*`.
pub open spec fn split_star_from(b: Seq<u8>, i: int) -> Seq<Seq<u8>>
    decreases b.len() - i,
{
    if i < 0 || i > b.len() {
        seq![]
    } else {
        proof {
            lemma_find_byte(b, 0x2a, i);
        }
        let e = find_byte(b, 0x2a, i);
        if e >= b.len() {
            seq![b.subrange(i, b.len() as int)]
        } else {
            seq![b.subrange(i, e)] + split_star_from(b, e + 1)
        }
    }
}

/// The pieces of `b` cut at every `*`.
pub open spec fn split_star(b: Seq<u8>) -> Seq<Seq<u8>> {
    split_star_from(b, 0)
}

/// The filter a pattern stands for: no pattern lets everything pass, a pattern without `*`
/// is one exact name, and a pattern with `*` is cut into pieces, of which the first is the
/// required start unless the pattern starts with `*`, and the last is the required end
/// unless the pattern ends with `*`.
pub open spec fn name_filter_spec(f: Option<Seq<u8>>) -> NameFilterView {
    match f {
        None => NameFilterView::Any,
        Some(b) => if b.contains(0x2au8) {
            let ps = split_star(b);
            let s = b[0] != 0x2a;
            let e = b[b.len() - 1] != 0x2a;
            NameFilterView::Partial(
                if s {
                    Some(ps[0])
                } else {
                    None
                },
                if e {
                    Some(ps[ps.len() - 1])
                } else {
                    None
                },
                ps.subrange(
                    if s {
                        1
                    } else {
                        0
                    },
                    ps.len() - if e {
                        1int
                    } else {
                        0
                    },
                ),
            )
        } else {
            NameFilterView::FullName(b)
        },
    }
}

/// `n` occurs in `h` at `i`.
pub open spec fn occurs_at(h: Seq<u8>, n: Seq<u8>, i: int) -> bool {
    0 <= i && i + n.len() <= h.len() && h.subrange(i, i + n.len()) == n
}

/// The first place at or after `i` where `n` occurs in `h`, or -1.
pub open spec fn find_sub_from(h: Seq<u8>, n: Seq<u8>, i: int) -> int
    decreases h.len() + 1 - i,
{
    if i < 0 || i + n.len() > h.len() {
        -1
    } else if occurs_at(h, n, i) {
        i
    } else {
        find_sub_from(h, n, i + 1)
    }
}

/// Walk the pieces through the name: each piece is looked for in the whole name, and what is
/// left to look at starts right after where it was found; `None` where the slicing cannot be
/// done (past the end of what is left, or through a character).
pub open spec fn walk_parts(name: Seq<u8>, lo: int, hi: int, parts: Seq<Seq<u8>>) -> Option<bool>
    decreases parts.len(),
{
    if parts.len() == 0 {
        Some(true)
    } else {
        let p = parts[0];
        let idx = find_sub_from(name, p, 0);
        if idx < 0 {
            Some(false)
        } else {
            let k = lo + idx + p.len();
            if k > hi || !is_char_boundary(name, k) {
                None
            } else {
                walk_parts(name, k, hi, parts.drop_first())
            }
        }
    }
}

/// Whether a name passes a pattern filter: it must start with the start and end with the end,
/// which must not overlap the start, and then the pieces are walked; `None` where the name
/// cannot be checked.
pub open spec fn partial_filter(
    name: Seq<u8>,
    start: Option<Seq<u8>>,
    end: Option<Seq<u8>>,
    parts: Seq<Seq<u8>>,
) -> Option<bool> {
    let lo: int = match start {
        Some(s) => s.len() as int,
        None => 0,
    };
    if start matches Some(s) && !s.is_prefix_of(name) {
        Some(false)
    } else if end matches Some(e) && !e.is_suffix_of(name) {
        Some(false)
    } else if end matches Some(e) && name.len() - lo < e.len() {
        None
    } else {
        let hi: int = match end {
            Some(e) => name.len() - e.len(),
            None => name.len() as int,
        };
        walk_parts(name, lo, hi, parts)
    }
}

/// Whether a name passes a filter; `None` where the name cannot be checked.
pub open spec fn filter_spec(f: NameFilterView, name: Seq<u8>) -> Option<bool> {
    match f {
        NameFilterView::Any => Some(true),
        NameFilterView::FullName(full) => Some(name == full),
        NameFilterView::Partial(s, e, ps) => partial_filter(name, s, e, ps),
    }
}

pub proof fn lemma_find_sub_from(h: Seq<u8>, n: Seq<u8>, i: int)
    requires
        0 <= i,
    ensures
        find_sub_from(h, n, i) == -1 || (i <= find_sub_from(h, n, i) && occurs_at(
            h,
            n,
            find_sub_from(h, n, i),
        )),
    decreases h.len() + 1 - i,
{
    if !(i + n.len() > h.len()) && !occurs_at(h, n, i) {
        lemma_find_sub_from(h, n, i + 1);
    }
}

/// Does `n` occur in `h` at `i`?
fn occurs_at_exec(h: &str, n: &str, i: usize) -> (r: bool)
    ensures
        r == occurs_at(bytes_of(h), bytes_of(n), i as int),
{
    let hl = byte_len(h);
    let nl = byte_len(n);
    if i > hl || nl > hl - i {
        return false;
    }
    let mut j: usize = 0;
    while j < nl
        invariant
            hl == bytes_of(h).len(),
            nl == bytes_of(n).len(),
            i + nl <= hl,
            j <= nl,
            forall|k: int| 0 <= k < j ==> bytes_of(h)[i + k] == bytes_of(n)[k],
        decreases nl - j,
    {
        if byte_at(h, i + j) != byte_at(n, j) {
            proof {
                assert(bytes_of(h).subrange(i as int, i + nl)[j as int] != bytes_of(n)[j as int]);
            }
            return false;
        }
        j = j + 1;
    }
    assert(bytes_of(h).subrange(i as int, i + nl) =~= bytes_of(n));
    true
}

/// The first byte index where `n` occurs in `h`, if it does.
fn find_sub(h: &str, n: &str) -> (r: Option<usize>)
    ensures
        match r {
            Some(i) => i == find_sub_from(bytes_of(h), bytes_of(n), 0),
            None => find_sub_from(bytes_of(h), bytes_of(n), 0) == -1,
        },
{
    let hl = byte_len(h);
    let nl = byte_len(n);
    if nl > hl {
        return None;
    }
    let mut i: usize = 0;
    loop
        invariant
            hl == bytes_of(h).len(),
            nl == bytes_of(n).len(),
            nl <= hl,
            i <= hl - nl,
            find_sub_from(bytes_of(h), bytes_of(n), 0) == find_sub_from(bytes_of(h), bytes_of(n), i as int),
        decreases hl - nl - i,
    {
        if occurs_at_exec(h, n, i) {
            return Some(i);
        }
        if i == hl - nl {
            proof {
                assert(find_sub_from(bytes_of(h), bytes_of(n), i + 1) == -1);
            }
            return None;
        }
        i = i + 1;
    }
}

/// The pieces of `f` cut at every `*`.
fn split_star_exec(f: &str) -> (r: Vec<String>)
    ensures
        r@.map_values(|s: String| sbytes(s)) == split_star(bytes_of(f)),
{
    let ghost b = bytes_of(f);
    let n = byte_len(f);
    let mut pieces: Vec<String> = Vec::new();
    let mut i: usize = 0;
    loop
        invariant_except_break
            n == b.len(),
            b == bytes_of(f),
            i <= n,
            i == 0 || b[i - 1] == 0x2a,
            pieces@.map_values(|s: String| sbytes(s)) + split_star_from(b, i as int) == split_star(b),
        ensures
            pieces@.map_values(|s: String| sbytes(s)) == split_star(b),
        decreases n - i,
    {
        let e = find_byte_from(f, 0x2a, i);
        proof {
            lemma_find_byte(b, 0x2a, i as int);
        }
        let piece = substr(f, i, e).to_owned();
        let ghost before = pieces@;
        pieces.push(piece);
        proof {
            assert(sbytes(piece) == b.subrange(i as int, e as int));
            assert(pieces@.map_values(|s: String| sbytes(s)) =~= before.map_values(
                |s: String| sbytes(s),
            ).push(b.subrange(i as int, e as int)));
        }
        if e == n {
            proof {
                assert(split_star_from(b, i as int) == seq![b.subrange(i as int, n as int)]);
                assert(pieces@.map_values(|s: String| sbytes(s)) =~= before.map_values(
                    |s: String| sbytes(s),
                ) + split_star_from(b, i as int));
            }
            break;
        }
        proof {
            assert(split_star_from(b, i as int) == seq![b.subrange(i as int, e as int)]
                + split_star_from(b, e + 1));
            assert(pieces@.map_values(|s: String| sbytes(s)) + split_star_from(b, e + 1)
                =~= before.map_values(|s: String| sbytes(s)) + split_star_from(b, i as int));
        }
        i = e + 1;
    }
    pieces
}

/// Is the last byte a `*`?
fn ends_with_star(f: &str) -> (r: bool)
    requires
        bytes_of(f).len() > 0,
    ensures
        r == (bytes_of(f)[bytes_of(f).len() - 1] == 0x2a),
{
    byte_at(f, byte_len(f) - 1) == 0x2a
}

impl NameFilter {
    /// Build a filter from an optional pattern.
    pub fn new(filter: Option<&str>) -> (r: Self)
        ensures
            r@ == name_filter_spec(
                match filter {
                    Some(f) => Some(bytes_of(f)),
                    None => None,
                },
            ),
    {
        match filter {
            None => NameFilter::Any,
            Some(f) => {
                let ghost b = bytes_of(f);
                let star = find_byte_from(f, 0x2a, 0);
                proof {
                    lemma_find_byte(b, 0x2a, 0);
                }
                if star == byte_len(f) {
                    proof {
                        assert(!b.contains(0x2au8));
                    }
                    NameFilter::FullName(f.to_owned())
                } else {
                    proof {
                        assert(b[star as int] == 0x2a);
                        assert(b.contains(0x2au8));
                    }
                    let pieces = split_star_exec(f);
                    let ghost ps = split_star(b);
                    proof {
                        lemma_split_star_len(b);
                        assert(pieces@.len() == ps.len());
                    }
                    let n = pieces.len();
                    let has_start = byte_at(f, 0) != 0x2a;
                    let has_end = !ends_with_star(f);
                    let start_with = if has_start {
                        Some(pieces[0].clone())
                    } else {
                        None
                    };
                    let end_with = if has_end {
                        Some(pieces[n - 1].clone())
                    } else {
                        None
                    };
                    let lo: usize = if has_start {
                        1
                    } else {
                        0
                    };
                    let hi: usize = if has_end {
                        n - 1
                    } else {
                        n
                    };
                    let mut parts: Vec<String> = Vec::new();
                    let mut k = lo;
                    while k < hi
                        invariant
                            lo <= k <= hi <= n,
                            n == pieces@.len(),
                            pieces@.map_values(|s: String| sbytes(s)) == ps,
                            parts@.map_values(|s: String| sbytes(s)) =~= ps.subrange(
                                lo as int,
                                k as int,
                            ),
                        decreases hi - k,
                    {
                        let ghost before = parts@;
                        let item = pieces[k].clone();
                        parts.push(item);
                        proof {
                            assert(parts@ == before.push(pieces@[k as int]));
                            assert(before.map_values(|s: String| sbytes(s)) =~= ps.subrange(
                                lo as int,
                                k as int,
                            ));
                            assert(pieces@.map_values(|s: String| sbytes(s))[k as int] == sbytes(
                                pieces@[k as int],
                            ));
                            let pm = parts@.map_values(|s: String| sbytes(s));
                            let bm = before.map_values(|s: String| sbytes(s));
                            assert forall|i: int| 0 <= i < pm.len() implies pm[i] == ps.subrange(
                                lo as int,
                                k + 1,
                            )[i] by {
                                if i < bm.len() {
                                    assert(pm[i] == sbytes(parts@[i]));
                                    assert(parts@[i] == before[i]);
                                    assert(bm[i] == sbytes(before[i]));
                                    assert(bm[i] == ps.subrange(lo as int, k as int)[i]);
                                } else {
                                    assert(pm[i] == sbytes(pieces@[k as int]));
                                }
                            }
                            assert(pm =~= ps.subrange(lo as int, k + 1));
                        }
                        k = k + 1;
                    }
                    proof {
                        assert(pieces@.map_values(|s: String| sbytes(s))[0] == sbytes(pieces@[0]));
                        assert(pieces@.map_values(|s: String| sbytes(s))[n - 1] == sbytes(
                            pieces@[n - 1],
                        ));
                    }
                    NameFilter::Partial { start_with, end_with, parts }
                }
            },
        }
    }

    /// Does `name` pass the filter?
    pub fn filter(&self, name: &str) -> (r: bool)
        requires
            filter_spec(self@, bytes_of(name)) is Some,
        ensures
            r == filter_spec(self@, bytes_of(name))->0,
    {
        match self {
            NameFilter::Any => true,
            NameFilter::FullName(full) => str_eq(name, full.as_str()),
            NameFilter::Partial { start_with, end_with, parts } => {
                let ghost b = bytes_of(name);
                let nl = byte_len(name);
                let mut lo: usize = 0;
                let mut hi: usize = nl;
                match start_with {
                    Some(start) => {
                        let s = start.as_str();
                        if !occurs_at_exec(name, s, 0) {
                            proof {
                                assert(!bytes_of(s).is_prefix_of(b));
                            }
                            return false;
                        }
                        lo = byte_len(s);
                        proof {
                            assert(bytes_of(s).is_prefix_of(b));
                        }
                    },
                    None => {},
                }
                match end_with {
                    Some(end) => {
                        let e = end.as_str();
                        let el = byte_len(e);
                        if el > nl || !occurs_at_exec(name, e, nl - el) {
                            proof {
                                assert(!bytes_of(e).is_suffix_of(b));
                            }
                            return false;
                        }
                        proof {
                            assert(bytes_of(e).is_suffix_of(b));
                        }
                        hi = nl - el;
                    },
                    None => {},
                }
                let ghost ps = parts@.map_values(|s: String| sbytes(s));
                let ghost lo0 = lo as int;
                assert(filter_spec(self@, b) == walk_parts(b, lo0, hi as int, ps));
                assert(ps.skip(0) =~= ps);
                let mut k: usize = 0;
                while k < parts.len()
                    invariant
                        b == bytes_of(name),
                        nl == b.len(),
                        lo <= hi <= nl,
                        k <= parts@.len(),
                        ps == parts@.map_values(|s: String| sbytes(s)),
                        walk_parts(b, lo as int, hi as int, ps.skip(k as int)) == walk_parts(
                            b,
                            lo0,
                            hi as int,
                            ps,
                        ),
                        walk_parts(b, lo0, hi as int, ps) is Some,
                        filter_spec(self@, b) == walk_parts(b, lo0, hi as int, ps),
                    decreases parts@.len() - k,
                {
                    let p = parts[k].as_str();
                    let ghost rest = ps.skip(k as int);
                    proof {
                        assert(rest[0] == bytes_of(p));
                        assert(rest.drop_first() =~= ps.skip(k + 1));
                    }
                    match find_sub(name, p) {
                        None => {
                            return false;
                        },
                        Some(idx) => {
                            proof {
                                lemma_find_sub_from(b, bytes_of(p), 0);
                            }
                            let pl = byte_len(p);
                            lo = lo + (idx + pl);
                        },
                    }
                    k = k + 1;
                }
                proof {
                    assert(ps.skip(k as int) =~= Seq::<Seq<u8>>::empty());
                }
                true
            },
        }
    }
}

/// Cutting at every `*` gives one piece more than there are `*`s; in particular at least one.
pub proof fn lemma_split_star_len(b: Seq<u8>)
    ensures
        split_star(b).len() >= 1,
        b.contains(0x2au8) ==> split_star(b).len() >= 2,
{
    lemma_split_star_from_len(b, 0);
}

proof fn lemma_split_star_from_len(b: Seq<u8>, i: int)
    requires
        0 <= i <= b.len(),
    ensures
        split_star_from(b, i).len() >= 1,
        (exists|k: int| i <= k < b.len() && b[k] == 0x2a) ==> split_star_from(b, i).len() >= 2,
    decreases b.len() - i,
{
    lemma_find_byte(b, 0x2a, i);
    let e = find_byte(b, 0x2a, i);
    if e < b.len() {
        lemma_split_star_from_len(b, e + 1);
    } else {
        if exists|k: int| i <= k < b.len() && b[k] == 0x2a {
            let k = choose|k: int| i <= k < b.len() && b[k] == 0x2a;
            assert(b[k] != 0x2a);
        }
    }
}

/// A pattern without `*` lets through exactly the name it spells: a name passes it when, and
/// only when, the name equals the pattern.
pub proof fn law_full_name_filter(pattern: Seq<u8>, name: Seq<u8>)
    requires
        !pattern.contains(0x2au8),
    ensures
        filter_spec(name_filter_spec(Some(pattern)), name) == Some(name == pattern),
{
}

/// No pattern lets every name through.
pub proof fn law_no_filter(name: Seq<u8>)
    ensures
        filter_spec(name_filter_spec(None), name) == Some(true),
{
}

} // verus!
