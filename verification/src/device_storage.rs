//! Storage of input devices behind generational handles: a slot is reused after its device is
//! removed, with a new lifetime, so a handle to the removed device finds nothing.
use vstd::prelude::*;
use crate::input::Handle;

verus! {

/// The device a handle finds among the slots: the one in the handle's slot, when the slot's
/// lifetime is the handle's.
pub open spec fn find_device<D>(s: Seq<(u8, Option<D>)>, h: Handle) -> Option<D> {
    if (h.id as int) < s.len() && s[h.id as int].0 == h.lifetime {
        s[h.id as int].1
    } else {
        None
    }
}

/// The first slot without a device, from `i` on; the number of slots when there is none.
pub open spec fn first_free<D>(s: Seq<(u8, Option<D>)>, i: int) -> int
    decreases s.len() - i,
{
    if i < 0 || i >= s.len() {
        s.len() as int
    } else if s[i].1 is None {
        i
    } else {
        first_free(s, i + 1)
    }
}

proof fn lemma_first_free<D>(s: Seq<(u8, Option<D>)>, i: int)
    requires
        0 <= i <= s.len(),
    ensures
        i <= first_free(s, i) <= s.len(),
        first_free(s, i) < s.len() ==> s[first_free(s, i)].1 is None,
        forall|j: int| i <= j < first_free(s, i) ==> s[j].1 is Some,
    decreases s.len() - i,
{
    if i < s.len() && s[i].1 is Some {
        lemma_first_free(s, i + 1);
    }
}

/// Input devices in slots, each slot with the lifetime of its current occupant.
pub struct DeviceStorage<D> {
    devices: Vec<(u8, Option<D>)>,
}

impl<D> DeviceStorage<D> {
    /// The slots: lifetimes and devices.
    pub closed spec fn slots(&self) -> Seq<(u8, Option<D>)> {
        self.devices@
    }

    /// No slots.
    pub fn new() -> (r: Self)
        ensures
            r.slots() == Seq::<(u8, Option<D>)>::empty(),
    {
        DeviceStorage { devices: Vec::new() }
    }

    /// The device `handle` finds, if any.
    pub fn get_device(&self, handle: Handle) -> (r: Option<&D>)
        ensures
            match r {
                Some(d) => find_device(self.slots(), handle) == Some(*d),
                None => find_device(self.slots(), handle) is None,
            },
    {
        let idx = handle.id as usize;
        if idx >= self.devices.len() || self.devices[idx].0 != handle.lifetime {
            return None;
        }
        match &self.devices[idx].1 {
            Some(dev) => Some(dev),
            None => None,
        }
    }

    /// Does `handle` find a device?
    pub fn has_device(&self, handle: Handle) -> (r: bool)
        ensures
            r == find_device(self.slots(), handle) is Some,
    {
        self.get_device(handle).is_some()
    }

    /// Put `dev` in the first free slot, with a lifetime one higher than the slot had, or in a
    /// new slot with lifetime 0.  (A reused slot's lifetime must leave room to grow.)
    pub fn add_device(&mut self, dev: D) -> (r: Handle)
        requires
            first_free(old(self).slots(), 0) < old(self).slots().len() ==> old(self).slots()[first_free(
                old(self).slots(),
                0,
            )].0 < u8::MAX,
        ensures
            ({
                let s = old(self).slots();
                let f = first_free(s, 0);
                if f < s.len() {
                    &&& final(self).slots() == s.update(f, ((s[f].0 + 1) as u8, Some(dev)))
                    &&& r == Handle { id: f as u8, lifetime: (s[f].0 + 1) as u8 }
                } else {
                    &&& final(self).slots() == s.push((0u8, Some(dev)))
                    &&& r == Handle { id: s.len() as u8, lifetime: 0u8 }
                }
            }),
    {
        let ghost s = self.devices@;
        proof {
            lemma_first_free(s, 0);
        }
        let n = self.devices.len();
        let mut i: usize = 0;
        while i < n && self.devices[i].1.is_some()
            invariant
                n == s.len(),
                s == self.devices@,
                i <= n,
                first_free(s, i as int) == first_free(s, 0),
            decreases n - i,
        {
            i = i + 1;
        }
        if i < n {
            let lifetime = self.devices[i].0 + 1;
            self.devices.set(i, (lifetime, Some(dev)));
            Handle { id: i as u8, lifetime }
        } else {
            self.devices.push((0, Some(dev)));
            Handle { id: i as u8, lifetime: 0 }
        }
    }

    /// Take the device out of the handle's slot, whatever its lifetime; the slot keeps its
    /// lifetime.  (The handle's slot must exist.)
    pub fn remove_device(&mut self, handle: Handle) -> (r: Option<D>)
        requires
            (handle.id as int) < old(self).slots().len(),
        ensures
            r == old(self).slots()[handle.id as int].1,
            final(self).slots() == old(self).slots().update(
                handle.id as int,
                (old(self).slots()[handle.id as int].0, None::<D>),
            ),
    {
        let idx = handle.id as usize;
        let (lifetime, dev) = self.devices.remove(idx);
        self.devices.insert(idx, (lifetime, None));
        proof {
            assert(self.devices@ =~= old(self).devices@.update(
                handle.id as int,
                (old(self).devices@[handle.id as int].0, None::<D>),
            ));
        }
        dev
    }
}

/// A handle handed out for a device finds it, until its slot is emptied.
pub proof fn law_added_device_is_found<D>(s: Seq<(u8, Option<D>)>, dev: D)
    requires
        first_free(s, 0) < s.len() ==> s[first_free(s, 0)].0 < u8::MAX,
        first_free(s, 0) < 256,
    ensures
        ({
            let f = first_free(s, 0);
            let (t, h) = if f < s.len() {
                (
                    s.update(f, ((s[f].0 + 1) as u8, Some(dev))),
                    Handle { id: f as u8, lifetime: (s[f].0 + 1) as u8 },
                )
            } else {
                (s.push((0u8, Some(dev))), Handle { id: s.len() as u8, lifetime: 0u8 })
            };
            find_device(t, h) == Some(dev)
        }),
{
    lemma_first_free(s, 0);
}

/// Once a device is removed, its handle finds nothing, also after its slot is given to
/// another device.
pub proof fn law_removed_handle_is_stale<D>(s: Seq<(u8, Option<D>)>, h: Handle, dev: D)
    requires
        find_device(s, h) is Some,
        s[h.id as int].0 < u8::MAX,
    ensures
        ({
            let emptied = s.update(h.id as int, (s[h.id as int].0, None::<D>));
            let f = first_free(emptied, 0);
            let refilled = if f < emptied.len() {
                emptied.update(f, ((emptied[f].0 + 1) as u8, Some(dev)))
            } else {
                emptied.push((0u8, Some(dev)))
            };
            &&& find_device(emptied, h) is None
            &&& find_device(refilled, h) is None
        }),
{
    let emptied = s.update(h.id as int, (s[h.id as int].0, None::<D>));
    lemma_first_free(emptied, 0);
    let f = first_free(emptied, 0);
    assert(emptied[h.id as int].1 is None);
    assert(f <= h.id);
}

} // verus!
