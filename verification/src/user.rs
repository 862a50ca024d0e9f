//! A user of the input system: its mapping contexts, kept in order of priority, and the
//! devices it holds through a control set, across disconnects and reconnects.
use vstd::prelude::*;
use crate::input::{ControlSchemeID, ControlSet, Handle};
use crate::path_component::str_eq;
use crate::text::bytes_of;

verus! {

/// The mapping contexts, as priorities and context identifiers.
pub open spec fn contexts_view(v: Seq<(u16, String)>) -> Seq<(u16, Seq<char>)> {
    v.map_values(|e: (u16, String)| (e.0, e.1@))
}

/// The contexts are in order of priority, lowest first.
pub open spec fn by_priority(s: Seq<(u16, Seq<char>)>) -> bool {
    forall|i: int, j: int| 0 <= i < j < s.len() ==> s[i].0 <= s[j].0
}

/// The index of the first context, from `i` on, whose priority is above `p`; the length when
/// there is none.
pub open spec fn first_above(s: Seq<(u16, Seq<char>)>, p: u16, i: int) -> int
    decreases s.len() - i,
{
    if i < 0 || i >= s.len() {
        s.len() as int
    } else if s[i].0 > p {
        i
    } else {
        first_above(s, p, i + 1)
    }
}

/// In contexts ordered by priority, those before `first_above` have a priority of at most
/// `p`, and those from it on a higher one.
pub proof fn lemma_first_above(s: Seq<(u16, Seq<char>)>, p: u16, i: int)
    requires
        by_priority(s),
        0 <= i <= s.len(),
        forall|j: int| 0 <= j < i ==> s[j].0 <= p,
    ensures
        i <= first_above(s, p, i) <= s.len(),
        forall|j: int| 0 <= j < first_above(s, p, i) ==> s[j].0 <= p,
        forall|j: int| first_above(s, p, i) <= j < s.len() ==> s[j].0 > p,
    decreases s.len() - i,
{
    if i < s.len() && s[i].0 <= p {
        lemma_first_above(s, p, i + 1);
    }
}

/// The devices a control set holds, with the scheme it is for.
pub open spec fn control_set_view(c: Option<ControlSet>) -> Option<(Seq<char>, Seq<Handle>)> {
    match c {
        Some(set) => Some((set.scheme.0@, set.devices@)),
        None => None,
    }
}

/// A user of the input system.
pub struct User {
    /// Mapping contexts, as priorities and context identifiers, lowest priority first.
    mapping_contexts: Vec<(u16, String)>,
    control_set: Option<ControlSet>,
    disconnected_scheme: ControlSchemeID,
    cur_held_devs: Vec<Handle>,
    disconnected_devs: Vec<Handle>,
}

impl User {
    #[verifier::type_invariant]
    spec fn inv(self) -> bool {
        by_priority(contexts_view(self.mapping_contexts@))
    }

    /// The mapping contexts, lowest priority first.
    pub closed spec fn contexts(&self) -> Seq<(u16, Seq<char>)> {
        contexts_view(self.mapping_contexts@)
    }

    /// The control set in use, if any.
    pub closed spec fn control(&self) -> Option<(Seq<char>, Seq<Handle>)> {
        control_set_view(self.control_set)
    }

    /// The scheme a control set is rebuilt for, once every disconnected device is back.
    pub closed spec fn waiting_scheme(&self) -> Seq<char> {
        self.disconnected_scheme.0@
    }

    /// The devices held while the control set is broken up.
    pub closed spec fn held(&self) -> Seq<Handle> {
        self.cur_held_devs@
    }

    /// The devices that were disconnected and may come back.
    pub closed spec fn disconnected(&self) -> Seq<Handle> {
        self.disconnected_devs@
    }

    /// A user without mapping contexts, control set or devices.
    pub fn new() -> (r: Self)
        ensures
            r.contexts() == Seq::<(u16, Seq<char>)>::empty(),
            r.control() is None,
            r.waiting_scheme() == Seq::<char>::empty(),
            r.held() == Seq::<Handle>::empty(),
            r.disconnected() == Seq::<Handle>::empty(),
    {
        let r = User {
            mapping_contexts: Vec::new(),
            control_set: None,
            disconnected_scheme: ControlSchemeID(String::new()),
            cur_held_devs: Vec::new(),
            disconnected_devs: Vec::new(),
        };
        assert(contexts_view(r.mapping_contexts@) =~= Seq::empty());
        r
    }

    /// The mapping contexts are always in order of priority, lowest first.
    pub fn mappings(&self) -> (r: &Vec<(u16, String)>)
        ensures
            contexts_view(r@) == self.contexts(),
            by_priority(self.contexts()),
    {
        proof {
            use_type_invariant(self);
        }
        &self.mapping_contexts
    }

    /// The control set in use, if any.
    pub fn control_set(&self) -> (r: Option<&ControlSet>)
        ensures
            control_set_view(
                match r {
                    Some(c) => Some(*c),
                    None => None,
                },
            ) == self.control(),
    {
        match &self.control_set {
            Some(c) => Some(c),
            None => None,
        }
    }

    /// The devices held while the control set is broken up.
    pub fn get_currently_held_devices(&self) -> (r: &Vec<Handle>)
        ensures
            r@ == self.held(),
    {
        &self.cur_held_devs
    }

    /// Where the first context with a priority above `priority` is.
    fn first_above_index(&self, priority: u16) -> (r: usize)
        ensures
            r == first_above(self.contexts(), priority, 0),
            r <= self.contexts().len(),
            forall|j: int| 0 <= j < r ==> self.contexts()[j].0 <= priority,
            forall|j: int| r <= j < self.contexts().len() ==> self.contexts()[j].0 > priority,
    {
        proof {
            use_type_invariant(self);
            lemma_first_above(self.contexts(), priority, 0);
        }
        let ghost s = self.contexts();
        let n = self.mapping_contexts.len();
        let mut i: usize = 0;
        while i < n && self.mapping_contexts[i].0 <= priority
            invariant
                n == s.len(),
                s == self.contexts(),
                by_priority(s),
                i <= n,
                forall|j: int| 0 <= j < i ==> s[j].0 <= priority,
                first_above(s, priority, i as int) == first_above(s, priority, 0),
            decreases n - i,
        {
            proof {
                assert(s[i as int].0 == self.mapping_contexts@[i as int].0);
            }
            i = i + 1;
        }
        proof {
            if i < n {
                assert(s[i as int].0 == self.mapping_contexts@[i as int].0);
            }
            lemma_first_above(s, priority, i as int);
        }
        i
    }

    /// Add a mapping context after every context with the same or a lower priority.  (The
    /// last context may not have the same priority: the search for the place runs past the
    /// end then.)
    pub fn add_mapping_context(&mut self, priority: u16, context: String)
        requires
            old(self).contexts().len() == 0 || old(self).contexts().last().0 != priority,
        ensures
            final(self).contexts() == old(self).contexts().insert(
                first_above(old(self).contexts(), priority, 0),
                (priority, context@),
            ),
            final(self).control() == old(self).control(),
            final(self).held() == old(self).held(),
            final(self).disconnected() == old(self).disconnected(),
            final(self).waiting_scheme() == old(self).waiting_scheme(),
    {
        proof {
            use_type_invariant(&*self);
        }
        let ghost s = self.contexts();
        let idx = self.first_above_index(priority);
        let ghost cv = context@;
        let mut contexts: Vec<(u16, String)> = Vec::new();
        std::mem::swap(&mut contexts, &mut self.mapping_contexts);
        contexts.insert(idx, (priority, context));
        proof {
            let t = contexts_view(contexts@);
            assert(t =~= s.insert(idx as int, (priority, cv)));
            assert forall|i: int, j: int| 0 <= i < j < t.len() implies t[i].0 <= t[j].0 by {
                if j < idx {
                    assert(t[i] == s[i] && t[j] == s[j]);
                } else if j == idx {
                    assert(t[i] == s[i]);
                } else if i < idx {
                    assert(t[i] == s[i] && t[j] == s[j - 1]);
                } else if i == idx {
                    assert(t[j] == s[j - 1]);
                } else {
                    assert(t[i] == s[i - 1] && t[j] == s[j - 1]);
                }
            }
        }
        self.mapping_contexts = contexts;
    }

    /// Keep only the mapping contexts with the identifier `identifier`.
    pub fn remove_mapping_context(&mut self, identifier: &str)
        ensures
            final(self).contexts() == old(self).contexts().filter(
                |e: (u16, Seq<char>)| e.1 == identifier@,
            ),
            final(self).control() == old(self).control(),
            final(self).held() == old(self).held(),
            final(self).disconnected() == old(self).disconnected(),
            final(self).waiting_scheme() == old(self).waiting_scheme(),
    {
        proof {
            use_type_invariant(&*self);
        }
        let ghost s = self.contexts();
        let ghost keep = |e: (u16, Seq<char>)| e.1 == identifier@;
        let mut contexts: Vec<(u16, String)> = Vec::new();
        std::mem::swap(&mut contexts, &mut self.mapping_contexts);
        let mut kept: Vec<(u16, String)> = Vec::new();
        let n = contexts.len();
        let mut i: usize = 0;
        while i < n
            invariant
                n == s.len(),
                contexts_view(contexts@) == s,
                by_priority(s),
                i <= n,
                keep == (|e: (u16, Seq<char>)| e.1 == identifier@),
                contexts_view(kept@) == s.take(i as int).filter(keep),
                forall|a: int, b: int|
                    0 <= a < kept@.len() && i <= b < n ==> kept@[a].0 <= s[b].0,
                by_priority(contexts_view(kept@)),
            decreases n - i,
        {
            let ghost before = kept@;
            proof {
                reveal(Seq::filter);
                assert(s.take(i + 1) =~= s.take(i as int).push(s[i as int]));
                assert(s.take(i + 1).drop_last() =~= s.take(i as int));
            }
            let name = contexts[i].1.as_str();
            let same = str_eq(name, identifier);
            proof {
                lemma_str_bytes_eq(name, identifier);
                assert(s[i as int].1 == name@);
                assert(keep(s[i as int]) == same);
                assert(s.take(i + 1).filter(keep) == if keep(s[i as int]) {
                    s.take(i as int).filter(keep).push(s[i as int])
                } else {
                    s.take(i as int).filter(keep)
                });
            }
            if same {
                let e = (contexts[i].0, contexts[i].1.clone());
                kept.push(e);
                proof {
                    assert(contexts_view(kept@) =~= contexts_view(before).push(s[i as int]));
                }
            } else {
                proof {
                    assert(contexts_view(kept@) =~= contexts_view(before));
                }
            }
            i = i + 1;
        }
        proof {
            assert(s.take(n as int) =~= s);
        }
        self.mapping_contexts = kept;
    }

    /// Remove every mapping context with the same or a lower priority.  (The last context
    /// may not have the same priority: the search for the place runs past the end then.)
    pub fn remove_mapping_with_priority_below(&mut self, priority: u16)
        requires
            old(self).contexts().len() == 0 || old(self).contexts().last().0 != priority,
        ensures
            final(self).contexts() == old(self).contexts().skip(
                first_above(old(self).contexts(), priority, 0),
            ),
            forall|i: int|
                0 <= i < final(self).contexts().len() ==> #[trigger] final(self).contexts()[i].0
                    > priority,
            final(self).control() == old(self).control(),
            final(self).held() == old(self).held(),
            final(self).disconnected() == old(self).disconnected(),
            final(self).waiting_scheme() == old(self).waiting_scheme(),
    {
        proof {
            use_type_invariant(&*self);
        }
        let ghost s = self.contexts();
        let idx = self.first_above_index(priority);
        let mut contexts: Vec<(u16, String)> = Vec::new();
        std::mem::swap(&mut contexts, &mut self.mapping_contexts);
        let rest = contexts.split_off(idx);
        proof {
            let t = contexts_view(rest@);
            assert(t =~= s.skip(idx as int));
            assert forall|i: int, j: int| 0 <= i < j < t.len() implies t[i].0 <= t[j].0 by {
                assert(t[i] == s[i + idx] && t[j] == s[j + idx]);
            }
        }
        self.mapping_contexts = rest;
    }

    /// Forget the control set when it is for the scheme `identifier`.
    pub fn notify_scheme_removed(&mut self, identifier: &ControlSchemeID)
        ensures
            final(self).control() == (if old(self).control() matches Some(c) && c.0 == identifier.0@ {
                None
            } else {
                old(self).control()
            }),
            final(self).contexts() == old(self).contexts(),
            final(self).held() == old(self).held(),
            final(self).disconnected() == old(self).disconnected(),
            final(self).waiting_scheme() == old(self).waiting_scheme(),
    {
        proof {
            use_type_invariant(&*self);
        }
        let matches = match &self.control_set {
            Some(set) => {
                let a = set.scheme.0.as_str();
                let b = identifier.0.as_str();
                let r = str_eq(a, b);
                proof {
                    lemma_str_bytes_eq(a, b);
                }
                r
            },
            None => false,
        };
        if matches {
            self.control_set = None;
        }
    }

    /// A device was removed.  When the control set holds it, the set is broken up: its
    /// devices are held, and the device waits for its return.  When it is among the held
    /// devices, it moves to the waiting ones.  Otherwise nothing changes, and `false` is
    /// returned.
    pub fn notify_device_removed(&mut self, handle: Handle) -> (r: bool)
        ensures
            final(self).contexts() == old(self).contexts(),
            final(self).waiting_scheme() == old(self).waiting_scheme(),
            ({
                let c = old(self).control();
                let in_set = c matches Some(set) && set.1.contains(handle);
                let in_held = old(self).held().contains(handle);
                if in_set {
                    &&& r
                    &&& final(self).control() is None
                    &&& c matches Some(set) && final(self).held() == set.1
                    &&& final(self).disconnected() == old(self).disconnected().push(handle)
                } else if in_held {
                    &&& r
                    &&& final(self).control() == c
                    &&& final(self).held() == old(self).held().remove(
                        first_position(old(self).held(), handle),
                    )
                    &&& final(self).disconnected() == old(self).disconnected().push(handle)
                } else {
                    &&& !r
                    &&& final(self).control() == c
                    &&& final(self).held() == old(self).held()
                    &&& final(self).disconnected() == old(self).disconnected()
                }
            }),
    {
        proof {
            use_type_invariant(&*self);
        }
        let in_set = match &self.control_set {
            Some(set) => position_of(&set.devices, handle).is_some(),
            None => false,
        };
        let mut disconnected: Vec<Handle> = Vec::new();
        std::mem::swap(&mut disconnected, &mut self.disconnected_devs);
        if in_set {
            let mut taken: Option<ControlSet> = None;
            std::mem::swap(&mut taken, &mut self.control_set);
            match taken {
                Some(mut set) => {
                    self.cur_held_devs = set.take_devices();
                },
                None => {},
            }
            disconnected.push(handle);
            self.disconnected_devs = disconnected;
            return true;
        }
        let mut held: Vec<Handle> = Vec::new();
        std::mem::swap(&mut held, &mut self.cur_held_devs);
        let r = match position_of(&held, handle) {
            Some(idx) => {
                held.remove(idx);
                disconnected.push(handle);
                true
            },
            None => false,
        };
        self.cur_held_devs = held;
        self.disconnected_devs = disconnected;
        r
    }

    /// Use `control_set`; no device waits for its return any more.
    pub fn set_control_set(&mut self, control_set: ControlSet)
        ensures
            final(self).control() == control_set_view(Some(control_set)),
            final(self).disconnected() == Seq::<Handle>::empty(),
            final(self).contexts() == old(self).contexts(),
            final(self).held() == old(self).held(),
            final(self).waiting_scheme() == old(self).waiting_scheme(),
    {
        proof {
            use_type_invariant(&*self);
        }
        self.control_set = Some(control_set);
        self.disconnected_devs = Vec::new();
    }

    /// A device came back.  When it was waited for, it is held again, and once nothing is
    /// waited for any more, the held devices make up the control set again, for the waiting
    /// scheme.  `false` when the device was not waited for.
    pub fn try_reconnect_device(&mut self, handle: Handle) -> (r: bool)
        ensures
            final(self).contexts() == old(self).contexts(),
            r == old(self).disconnected().contains(handle),
            !r ==> final(self).control() == old(self).control() && final(self).held() == old(
                self,
            ).held() && final(self).disconnected() == old(self).disconnected()
                && final(self).waiting_scheme() == old(self).waiting_scheme(),
            r ==> ({
                let left = old(self).disconnected().remove(
                    first_position(old(self).disconnected(), handle),
                );
                let held = old(self).held().push(handle);
                &&& final(self).disconnected() == left
                &&& left.len() == 0 ==> final(self).control() == Some(
                    (old(self).waiting_scheme(), held),
                ) && final(self).held() == Seq::<Handle>::empty()
                    && final(self).waiting_scheme() == Seq::<char>::empty()
                &&& left.len() > 0 ==> final(self).control() == old(self).control()
                    && final(self).held() == held && final(self).waiting_scheme() == old(
                    self,
                ).waiting_scheme()
            }),
    {
        proof {
            use_type_invariant(&*self);
        }
        let idx = match position_of(&self.disconnected_devs, handle) {
            Some(idx) => idx,
            None => return false,
        };
        let mut disconnected: Vec<Handle> = Vec::new();
        std::mem::swap(&mut disconnected, &mut self.disconnected_devs);
        let mut held: Vec<Handle> = Vec::new();
        std::mem::swap(&mut held, &mut self.cur_held_devs);
        disconnected.remove(idx);
        held.push(handle);
        if disconnected.len() == 0 {
            let mut scheme = ControlSchemeID(String::new());
            std::mem::swap(&mut scheme, &mut self.disconnected_scheme);
            self.control_set = Some(ControlSet { scheme, devices: held });
        } else {
            self.cur_held_devs = held;
        }
        self.disconnected_devs = disconnected;
        true
    }
}

/// Two string slices have the same bytes exactly when they have the same characters.
proof fn lemma_str_bytes_eq(a: &str, b: &str)
    ensures
        (bytes_of(a) == bytes_of(b)) == (a@ == b@),
{
    vstd::utf8::encode_utf8_decode_utf8(a@);
    vstd::utf8::encode_utf8_decode_utf8(b@);
}

/// Where `h` first occurs in `s` (meaningful when it occurs).
pub open spec fn first_position(s: Seq<Handle>, h: Handle) -> int {
    choose|i: int| 0 <= i < s.len() && s[i] == h && forall|j: int| 0 <= j < i ==> s[j] != h
}

/// Where `handle` first occurs in `v`, if it does.
fn position_of(v: &Vec<Handle>, handle: Handle) -> (r: Option<usize>)
    ensures
        r is Some <==> v@.contains(handle),
        r matches Some(i) ==> i == first_position(v@, handle) && i < v@.len(),
{
    let mut i: usize = 0;
    while i < v.len()
        invariant
            i <= v@.len(),
            forall|j: int| 0 <= j < i ==> v@[j] != handle,
        decreases v@.len() - i,
    {
        if v[i] == handle {
            proof {
                let s = v@;
                assert(s[i as int] == handle);
                let k = first_position(s, handle);
                assert(0 <= k < s.len() && s[k] == handle && forall|j: int| 0 <= j < k ==> s[j] != handle);
                if k < i {
                    assert(s[k] != handle);
                }
                if k > i {
                    assert(s[i as int] != handle);
                }
            }
            return Some(i);
        }
        i = i + 1;
    }
    None
}

} // verus!
