//! HID usage pages and usages, looked up in tables sorted by id.
use vstd::prelude::*;
use crate::display::{hex4, push_hex4, string_push_str};

verus! {

/// The id of a HID usage page.
#[derive(Clone, Copy, PartialEq, Eq, Debug, Hash, Structural)]
pub struct UsagePageId(pub u16);

impl UsagePageId {
    pub fn new(id: u16) -> (r: Self)
        ensures
            r.0 == id,
    {
        Self(id)
    }

    pub fn as_u16(self) -> (r: u16)
        ensures
            r == self.0,
    {
        self.0
    }
}

/// The id of a HID usage within its page.
#[derive(Clone, Copy, PartialEq, Eq, Debug, Hash, Structural)]
pub struct UsageId(pub u16);

impl UsageId {
    pub fn new(id: u16) -> (r: Self)
        ensures
            r.0 == id,
    {
        Self(id)
    }

    pub fn as_u16(self) -> (r: u16)
        ensures
            r == self.0,
    {
        self.0
    }
}

/// A named HID usage.
#[derive(Debug)]
pub struct HidUsage<'a> {
    pub id: UsageId,
    pub name: &'a str,
}

/// A named HID usage page, with its usages sorted by id.
#[derive(Debug)]
pub struct HidUsagePage<'a> {
    pub id: UsagePageId,
    pub name: &'a str,
    pub usages: Option<&'a [HidUsage<'a>]>,
}

/// The ids of the usages strictly increase.
pub open spec fn usages_sorted(s: Seq<HidUsage>) -> bool {
    forall|i: int, j: int| 0 <= i < j < s.len() ==> s[i].id.0 < s[j].id.0
}

/// The ids of the pages strictly increase.
pub open spec fn pages_sorted(s: Seq<HidUsagePage>) -> bool {
    forall|i: int, j: int| 0 <= i < j < s.len() ==> s[i].id.0 < s[j].id.0
}

impl<'a> HidUsagePage<'a> {
    /// Find the usage page with the given id in a table sorted by id; `None` when the id does
    /// not name a page.
    pub fn new(pages: &'a [HidUsagePage<'a>], usage_page_id: UsagePageId) -> (r: Option<
        &'a HidUsagePage<'a>,
    >)
        requires
            pages_sorted(pages@),
        ensures
            r is None <==> forall|i: int| 0 <= i < pages@.len() ==> pages@[i].id != usage_page_id,
            r matches Some(p) ==> exists|i: int| 0 <= i < pages@.len() && pages@[i] == *p && p.id
                == usage_page_id,
    {
        let key = usage_page_id.0;
        let mut lo: usize = 0;
        let mut hi: usize = pages.len();
        while lo < hi
            invariant
                lo <= hi <= pages@.len(),
                pages_sorted(pages@),
                key == usage_page_id.0,
                forall|i: int| 0 <= i < lo ==> pages@[i].id.0 < key,
                forall|i: int| hi <= i < pages@.len() ==> pages@[i].id.0 > key,
            decreases hi - lo,
        {
            let mid = lo + (hi - lo) / 2;
            let id = pages[mid].id.0;
            if id == key {
                assert(pages@[mid as int].id == usage_page_id);
                return Some(&pages[mid]);
            } else if id < key {
                lo = mid + 1;
            } else {
                hi = mid;
            }
        }
        None
    }

    /// Find the usage with the given id in this page's usages; `None` when the page has no
    /// usages or the id does not name one.
    pub fn get_usage(&self, usage_id: UsageId) -> (r: Option<&HidUsage<'a>>)
        requires
            self.usages matches Some(u) ==> usages_sorted(u@),
        ensures
            r is None <==> match self.usages {
                None => true,
                Some(u) => forall|i: int| 0 <= i < u@.len() ==> u@[i].id != usage_id,
            },
            r matches Some(x) ==> self.usages matches Some(u) && exists|i: int|
                0 <= i < u@.len() && u@[i] == *x && x.id == usage_id,
    {
        match self.usages {
            None => None,
            Some(usages) => {
                let key = usage_id.0;
                let mut lo: usize = 0;
                let mut hi: usize = usages.len();
                while lo < hi
                    invariant
                        lo <= hi <= usages@.len(),
                        usages_sorted(usages@),
                        key == usage_id.0,
                        self.usages == Some(usages),
                        forall|i: int| 0 <= i < lo ==> usages@[i].id.0 < key,
                        forall|i: int| hi <= i < usages@.len() ==> usages@[i].id.0 > key,
                    decreases hi - lo,
                {
                    let mid = lo + (hi - lo) / 2;
                    let id = usages[mid].id.0;
                    if id == key {
                        assert(usages@[mid as int].id == usage_id);
                        assert(self.usages->0@[mid as int] == usages[mid as int]);
                        assert(exists|i: int|
                            0 <= i < usages@.len() && usages@[i] == usages[mid as int] && usages@[i].id == usage_id);
                        return Some(&usages[mid]);
                    } else if id < key {
                        lo = mid + 1;
                    } else {
                        hi = mid;
                    }
                }
                None
            },
        }
    }
}

/// A HID usage: a page and a usage within it.
#[derive(Clone, Copy, PartialEq, Eq, Debug, Hash, Structural)]
pub struct Usage {
    pub page: UsagePageId,
    pub usage: UsageId,
}

impl Usage {
    pub fn new(page: UsagePageId, usage: UsageId) -> (r: Self)
        ensures
            r.page == page,
            r.usage == usage,
    {
        Self { page, usage }
    }

    pub fn from_u16(page: u16, usage: u16) -> (r: Self)
        ensures
            r.page.0 == page,
            r.usage.0 == usage,
    {
        Self::new(UsagePageId(page), UsageId(usage))
    }
}

/// The name of the usage with id `id` on a page, if the page has one.
pub open spec fn usage_name_on(p: HidUsagePage, id: UsageId) -> Option<Seq<char>> {
    match p.usages {
        Some(u) => if exists|j: int| 0 <= j < u@.len() && u@[j].id == id {
            Some(u@[choose|j: int| 0 <= j < u@.len() && u@[j].id == id].name@)
        } else {
            None
        },
        None => None,
    }
}

/// The text a usage on a named page is displayed with: the page's name, and the usage's name
/// where the page has one, else its id in hexadecimal.
pub open spec fn named_page_usage_text(p: HidUsagePage, id: UsageId) -> Seq<char> {
    match usage_name_on(p, id) {
        Some(name) => "{ page: \""@ + p.name@ + "\", usage: \""@ + name + "\" }"@,
        None => "{ page: \""@ + p.name@ + "\", usage: "@ + hex4(id.0) + " }"@,
    }
}

/// The text a usage on a page without a name is displayed with: both ids in hexadecimal.
pub open spec fn unnamed_usage_text(u: Usage) -> Seq<char> {
    "{ page: "@ + hex4(u.page.0) + " usage: "@ + hex4(u.usage.0) + " }"@
}

impl Usage {
    /// The usage as it is displayed, with the names of its page and usage looked up in a
    /// table of pages sorted by id, each with its usages sorted by id.
    pub fn to_string(&self, pages: &[HidUsagePage]) -> (r: String)
        requires
            pages_sorted(pages@),
            forall|i: int|
                0 <= i < pages@.len() ==> ((#[trigger] pages@[i]).usages matches Some(u) ==> usages_sorted(u@)),
        ensures
            (forall|i: int| 0 <= i < pages@.len() ==> pages@[i].id != self.page) ==> r@ == unnamed_usage_text(*self),
            forall|i: int|
                0 <= i < pages@.len() && (#[trigger] pages@[i]).id == self.page ==> r@ == named_page_usage_text(
                    pages@[i],
                    self.usage,
                ),
    {
        match HidUsagePage::new(pages, self.page) {
            Some(page) => {
                let ghost i0 = choose|i: int| 0 <= i < pages@.len() && pages@[i] == *page && page.id == self.page;
                proof {
                    assert forall|i: int| 0 <= i < pages@.len() && (#[trigger] pages@[i]).id == self.page implies i == i0 by {
                        if i < i0 {
                            assert(pages@[i].id.0 < pages@[i0].id.0);
                        } else if i > i0 {
                            assert(pages@[i0].id.0 < pages@[i].id.0);
                        }
                    }
                    assert(page.usages matches Some(u) ==> usages_sorted(u@));
                }
                let mut s = String::new();
                string_push_str(&mut s, "{ page: \"");
                string_push_str(&mut s, page.name);
                match page.get_usage(self.usage) {
                    Some(usage) => {
                        proof {
                            let u = page.usages->0;
                            let j0 = choose|j: int| 0 <= j < u@.len() && u@[j] == *usage && usage.id == self.usage;
                            let j1 = choose|j: int| 0 <= j < u@.len() && u@[j].id == self.usage;
                            if j0 < j1 {
                                assert(u@[j0].id.0 < u@[j1].id.0);
                            } else if j1 < j0 {
                                assert(u@[j1].id.0 < u@[j0].id.0);
                            }
                            assert(usage_name_on(*page, self.usage) == Some(usage.name@));
                        }
                        string_push_str(&mut s, "\", usage: \"");
                        string_push_str(&mut s, usage.name);
                        string_push_str(&mut s, "\" }");
                        assert(s@ =~= named_page_usage_text(*page, self.usage));
                    },
                    None => {
                        string_push_str(&mut s, "\", usage: ");
                        push_hex4(&mut s, self.usage.0);
                        string_push_str(&mut s, " }");
                        assert(s@ =~= named_page_usage_text(*page, self.usage));
                    },
                }
                s
            },
            None => {
                let mut s = String::new();
                string_push_str(&mut s, "{ page: ");
                push_hex4(&mut s, self.page.0);
                string_push_str(&mut s, " usage: ");
                push_hex4(&mut s, self.usage.0);
                string_push_str(&mut s, " }");
                assert(s@ =~= unnamed_usage_text(*self));
                s
            },
        }
    }
}

} // verus!
