//! Lifecycle callbacks: a registry that hands out an id for each callback, removes a
//! callback by its id, and calls every callback in turn with an event.
use vstd::prelude::*;

verus! {

/// The lifecycle events that callbacks receive.
#[derive(Debug, Clone, Copy, PartialEq, Eq, Structural)]
pub enum HotLibEvents {
    SourceChanged,
    StartRebuild,
    PatchSuccess,
    PatchError,
    CleanUp,
    BuildSuccess,
    BuildFailed,
}

impl Default for HotLibEvents {
    fn default() -> (e: Self)
        ensures e == HotLibEvents::PatchSuccess,
    {
        HotLibEvents::PatchSuccess
    }
}

/// A registered callback and the id it was registered under.
pub struct EventEntry<C> {
    pub id: usize,
    pub callback: C,
}

/// The registry of lifecycle callbacks, in the order they were registered.
pub struct HotLibEvent<C> {
    pub events: Vec<EventEntry<C>>,
    pub next_id: usize,
}

impl<C> View for HotLibEvent<C> {
    type V = Seq<(usize, C)>;

    open spec fn view(&self) -> Seq<(usize, C)> {
        self.events@.map_values(|e: EventEntry<C>| (e.id, e.callback))
    }
}

/// The ids are increasing in registration order and all below the next id, so each
/// callback has its own id and a new one is fresh.
pub open spec fn ids_fresh<C>(s: Seq<(usize, C)>, next: usize) -> bool {
    &&& forall|i: int, j: int| 0 <= i < j < s.len() ==> s[i].0 < s[j].0
    &&& forall|i: int| 0 <= i < s.len() ==> (#[trigger] s[i]).0 < next
}

/// The callbacks after removing the one registered under `id` (none when no callback has
/// that id).
pub open spec fn remove_id<C>(s: Seq<(usize, C)>, id: usize) -> Seq<(usize, C)> {
    if exists|k: int| 0 <= k < s.len() && s[k].0 == id {
        s.remove(choose|k: int| 0 <= k < s.len() && s[k].0 == id)
    } else {
        s
    }
}

/// A callback list that removes its callback when dropped; it holds the callback's id.
pub struct HotLibEventLocal(pub usize);

/// A new, empty callback registry.
pub fn new_event_list<C>() -> (e: HotLibEvent<C>)
    ensures
        e@.len() == 0,
        e.wf(),
{
    HotLibEvent::new()
}

impl<C> HotLibEvent<C> {
    pub open spec fn wf(&self) -> bool {
        ids_fresh(self@, self.next_id)
    }

    /// An empty registry.
    pub fn new() -> (e: Self)
        ensures
            e@.len() == 0,
            e.wf(),
    {
        let e = HotLibEvent { events: Vec::new(), next_id: 0 };
        assert(e@ =~= Seq::<(usize, C)>::empty());
        e
    }

    /// Registers `callback` after the others and returns its id.
    pub fn push(&mut self, callback: C) -> (id: usize)
        requires
            old(self).wf(),
            old(self).next_id < usize::MAX,
        ensures
            final(self).wf(),
            id == old(self).next_id,
            final(self).next_id == old(self).next_id + 1,
            final(self)@ == old(self)@.push((id, callback)),
    {
        let id = self.next_id;
        let ghost before = self@;
        self.events.push(EventEntry { id, callback });
        self.next_id = id + 1;
        assert(self@ =~= before.push((id, callback)));
        id
    }

    /// Unregisters the callback registered under `id`, if there is one.
    pub fn remove(&mut self, id: usize)
        requires old(self).wf(),
        ensures
            final(self).wf(),
            final(self).next_id == old(self).next_id,
            final(self)@ == remove_id(old(self)@, id),
    {
        let ghost s = self@;
        let n = self.events.len();
        let mut k: usize = 0;
        while k < n
            invariant
                k <= n,
                n == self.events@.len(),
                self@ == s,
                s == old(self)@,
                self.next_id == old(self).next_id,
                ids_fresh(s, self.next_id),
                forall|q: int| 0 <= q < k ==> s[q].0 != id,
            decreases n - k,
        {
            assert(s[k as int].0 == self.events@[k as int].id);
            if self.events[k].id == id {
                proof {
                    let c = choose|q: int| 0 <= q < s.len() && s[q].0 == id;
                    assert(c == k as int) by {
                        if c < k as int {
                            assert(s[c].0 != id);
                        } else if c > k as int {
                            assert(s[k as int].0 < s[c].0);
                        }
                    }
                }
                self.events.remove(k);
                assert(self@ =~= s.remove(k as int));
                assert forall|i: int, j: int| 0 <= i < j < self@.len() implies self@[i].0
                    < self@[j].0 by {
                    let ii = if i < k { i } else { i + 1 };
                    let jj = if j < k { j } else { j + 1 };
                    assert(self@[i] == s[ii]);
                    assert(self@[j] == s[jj]);
                }
                assert forall|i: int| 0 <= i < self@.len() implies (#[trigger] self@[i]).0
                    < self.next_id by {
                    let ii = if i < k { i } else { i + 1 };
                    assert(self@[i] == s[ii]);
                }
                return;
            }
            k = k + 1;
        }
    }

    /// Calls every callback, in registration order, with `event_type`: each registered
    /// callback has been called with it and its postcondition holds of that call.
    pub fn trigger(&self, event_type: HotLibEvents)
        where C: Fn(HotLibEvents),
        requires
            forall|i: int|
                0 <= i < self@.len() ==> call_requires(#[trigger] self@[i].1, (event_type,)),
        ensures
            forall|i: int|
                0 <= i < self@.len() ==> call_ensures(#[trigger] self@[i].1, (event_type,), ()),
    {
        let n = self.events.len();
        let mut k: usize = 0;
        while k < n
            invariant
                k <= n,
                n == self.events@.len(),
                forall|i: int|
                    0 <= i < self@.len() ==> call_requires(#[trigger] self@[i].1, (event_type,)),
                forall|i: int|
                    0 <= i < k ==> call_ensures(#[trigger] self@[i].1, (event_type,), ()),
            decreases n - k,
        {
            assert(self@[k as int].1 == self.events@[k as int].callback);
            (self.events[k].callback)(event_type);
            k = k + 1;
        }
    }

    /// Registers `callback` for as long as the engine runs.
    pub fn global(&mut self, callback: C)
        requires
            old(self).wf(),
            old(self).next_id < usize::MAX,
        ensures
            final(self).wf(),
            final(self).next_id == old(self).next_id + 1,
            final(self)@ == old(self)@.push((old(self).next_id, callback)),
    {
        self.push(callback);
    }

    /// Registers `callback` and returns the handle that unregisters it.
    pub fn local(&mut self, callback: C) -> (l: HotLibEventLocal)
        requires
            old(self).wf(),
            old(self).next_id < usize::MAX,
        ensures
            final(self).wf(),
            final(self).next_id == old(self).next_id + 1,
            l.0 == old(self).next_id,
            final(self)@ == old(self)@.push((l.0, callback)),
    {
        HotLibEventLocal::new(self, callback)
    }
}

impl HotLibEventLocal {
    /// Registers `callback` in `events` and keeps its id.
    pub fn new<C>(events: &mut HotLibEvent<C>, callback: C) -> (l: Self)
        requires
            old(events).wf(),
            old(events).next_id < usize::MAX,
        ensures
            final(events).wf(),
            final(events).next_id == old(events).next_id + 1,
            l.0 == old(events).next_id,
            final(events)@ == old(events)@.push((l.0, callback)),
    {
        HotLibEventLocal(events.push(callback))
    }

    /// Unregisters the callback this handle holds.
    pub fn release<C>(self, events: &mut HotLibEvent<C>)
        requires old(events).wf(),
        ensures
            final(events).wf(),
            final(events)@ == remove_id(old(events)@, self.0),
    {
        events.remove(self.0);
    }
}

/// Registering a callback and then removing it by the id it got leaves the callbacks as
/// they were.
pub proof fn lemma_push_then_remove<C>(s: Seq<(usize, C)>, next: usize, callback: C)
    requires ids_fresh(s, next),
    ensures remove_id(s.push((next, callback)), next) == s,
{
    let t = s.push((next, callback));
    assert(t[s.len() as int].0 == next);
    let c = choose|k: int| 0 <= k < t.len() && t[k].0 == next;
    assert(c == s.len()) by {
        if c < s.len() {
            assert(t[c] == s[c]);
        }
    }
    assert(t.remove(c) =~= s);
}

/// Removing a callback by its id leaves every other callback registered, and no callback
/// with that id.
pub proof fn lemma_remove_keeps_others<C>(s: Seq<(usize, C)>, next: usize, id: usize)
    requires ids_fresh(s, next),
    ensures
        forall|i: int|
            0 <= i < s.len() && s[i].0 != id ==> remove_id(s, id).contains(#[trigger] s[i]),
        forall|i: int|
            0 <= i < remove_id(s, id).len() ==> (#[trigger] remove_id(s, id)[i]).0 != id,
{
    if exists|k: int| 0 <= k < s.len() && s[k].0 == id {
        let c = choose|k: int| 0 <= k < s.len() && s[k].0 == id;
        let r = s.remove(c);
        assert(remove_id(s, id) == r);
        assert forall|i: int| 0 <= i < s.len() && s[i].0 != id implies r.contains(
            #[trigger] s[i],
        ) by {
            if i < c {
                assert(r[i] == s[i]);
            } else {
                assert(i != c);
                assert(r[i - 1] == s[i]);
            }
        }
        assert forall|q: int| 0 <= q < r.len() implies (#[trigger] r[q]).0 != id by {
            if q < c {
                assert(r[q] == s[q]);
                assert(s[q].0 < s[c].0);
            } else {
                assert(r[q] == s[q + 1]);
                assert(s[c].0 < s[q + 1].0);
            }
        }
    } else {
        assert forall|i: int| 0 <= i < s.len() && s[i].0 != id implies s.contains(
            #[trigger] s[i],
        ) by {}
    }
}

} // verus!
