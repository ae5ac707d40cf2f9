//! Who listens for which named event. Each listener waits for one delivery
//! and then leaves; an event name is dropped once nobody listens for it.
use vstd::prelude::*;
use crate::table::StrMap;

verus! {

/// The listeners of `name`, in the order they subscribed.
pub open spec fn listeners(m: Map<Seq<char>, Seq<u128>>, name: Seq<char>) -> Seq<u128> {
    if m.contains_key(name) { m[name] } else { Seq::empty() }
}

/// The registry after `id` subscribes to `name`; unchanged if it already had.
pub open spec fn after_subscribe(m: Map<Seq<char>, Seq<u128>>, name: Seq<char>, id: u128) -> Map<Seq<char>, Seq<u128>> {
    if listeners(m, name).contains(id) { m } else { m.insert(name, listeners(m, name).push(id)) }
}

/// The registry after `id` stops listening for `name`; the name goes when its
/// last listener does.
pub open spec fn after_unsubscribe(m: Map<Seq<char>, Seq<u128>>, name: Seq<char>, id: u128) -> Map<Seq<char>, Seq<u128>> {
    let rest = listeners(m, name).remove_value(id);
    if !listeners(m, name).contains(id) {
        m
    } else if rest.len() == 0 {
        m.remove(name)
    } else {
        m.insert(name, rest)
    }
}

/// Relies on `uuid::Uuid::new_v4` and `Uuid::as_u128`: a random identifier.
/// Nothing is promised of its value.
#[verifier::external_body]
fn fresh_id() -> (r: u128) {
    uuid::Uuid::new_v4().as_u128()
}

fn index_of(v: &Vec<u128>, id: u128) -> (r: Option<usize>)
    ensures
        r is None <==> !v@.contains(id),
        r matches Some(i) ==> i < v@.len() && v@[i as int] == id && v@.index_of_first(id) == Some(i as int),
{
    let mut i: usize = 0;
    while i < v.len()
        invariant
            i <= v@.len(),
            forall|j: int| 0 <= j < i ==> v@[j] != id,
        decreases v@.len() - i,
    {
        if v[i] == id {
            proof {
                v@.index_of_first_ensures(id);
                assert(v@.contains(id));
            }
            return Some(i);
        }
        i = i + 1;
    }
    None
}

/// Event names mapped to their listeners.
pub struct SubscriptionRegistry {
    events: StrMap<Vec<u128>>,
}

impl View for SubscriptionRegistry {
    type V = Map<Seq<char>, Seq<u128>>;

    closed spec fn view(&self) -> Self::V {
        self.events@.map_values(|v: Vec<u128>| v@)
    }
}

impl SubscriptionRegistry {
    /// The table is well formed, no name is kept without listeners, and no
    /// listener is registered twice under one name.
    pub open spec fn wf(&self) -> bool {
        &&& self.table_wf()
        &&& forall|k: Seq<char>| #[trigger] self@.contains_key(k) ==>
                self@[k].len() > 0 && self@[k].no_duplicates()
    }

    /// The event table is well formed.
    pub closed spec fn table_wf(&self) -> bool {
        self.events.wf()
    }

    pub fn new() -> (r: Self)
        ensures
            r.wf(),
            r@ == Map::<Seq<char>, Seq<u128>>::empty(),
    {
        let r = SubscriptionRegistry { events: StrMap::new() };
        assert(r@ =~= Map::<Seq<char>, Seq<u128>>::empty());
        r
    }

    /// The listeners of `name`, in the order they subscribed.
    pub fn subscribers(&self, name: &String) -> (r: Vec<u128>)
        requires
            self.wf(),
        ensures
            r@ == listeners(self@, name@),
    {
        match self.events.get(name) {
            Some(v) => {
                let mut out: Vec<u128> = Vec::new();
                let mut i: usize = 0;
                while i < v.len()
                    invariant
                        i <= v@.len(),
                        out@ == v@.subrange(0, i as int),
                    decreases v@.len() - i,
                {
                    out.push(v[i]);
                    i = i + 1;
                    assert(out@ =~= v@.subrange(0, i as int));
                }
                assert(v@.subrange(0, v@.len() as int) =~= v@);
                out
            },
            None => Vec::new(),
        }
    }

    /// Whether any listener waits for `name`.
    pub fn has_event(&self, name: &String) -> (r: bool)
        requires
            self.wf(),
        ensures
            r == self@.contains_key(name@),
    {
        self.events.get(name).is_some()
    }

    /// Registers `id` as a listener of `name`. Returns `false`, and changes
    /// nothing, when `id` already listens for `name`.
    pub fn subscribe(&mut self, name: String, id: u128) -> (r: bool)
        requires
            old(self).wf(),
        ensures
            final(self).wf(),
            r == !listeners(old(self)@, name@).contains(id),
            final(self)@ == after_subscribe(old(self)@, name@, id),
    {
        let ghost k = name@;
        let cur = self.events.remove(&name);
        let mut list = match cur {
            Some(v) => v,
            None => Vec::new(),
        };
        assert(list@ == listeners(old(self)@, k));
        match index_of(&list, id) {
            Some(_) => {
                self.events.insert(name, list);
                assert(self.events@ =~= old(self).events@);
                false
            },
            None => {
                let ghost before = list@;
                assert(before.no_duplicates()) by {
                    if old(self).events@.contains_key(k) {
                        assert(old(self).events@[k]@ == before);
                    }
                }
                list.push(id);
                assert(list@.no_duplicates()) by {
                    assert forall|a: int, b: int| 0 <= a < b < list@.len() implies list@[a] != list@[b] by {
                        assert(list@[a] == before[a]);
                        if b < list@.len() - 1 {
                            assert(list@[b] == before[b]);
                        }
                    }
                }
                self.events.insert(name, list);
                assert(self@ =~= after_subscribe(old(self)@, k, id));
                true
            },
        }
    }

    /// Removes `id` from the listeners of `name`, and `name` itself when no
    /// listener is left. Nothing changes if `id` does not listen for `name`.
    pub fn unsubscribe(&mut self, name: &String, id: u128)
        requires
            old(self).wf(),
        ensures
            final(self).wf(),
            final(self)@ == after_unsubscribe(old(self)@, name@, id),
    {
        let ghost k = name@;
        match self.events.remove(name) {
            None => {
                assert(self.events@ =~= old(self).events@);
            },
            Some(mut list) => {
                assert(list@ == listeners(old(self)@, k));
                match index_of(&list, id) {
                    None => {
                        self.events.insert(name.clone(), list);
                        assert(self.events@ =~= old(self).events@);
                    },
                    Some(i) => {
                        let ghost before = list@;
                        list.remove(i);
                        assert(list@ == before.remove_value(id));
                        if list.len() == 0 {
                            assert(self@ =~= old(self)@.remove(k));
                        } else {
                            assert(list@.no_duplicates()) by {
                                assert forall|a: int, b: int| 0 <= a < b < list@.len() implies list@[a] != list@[b] by {
                                    let a0 = if a < i { a } else { a + 1 };
                                    let b0 = if b < i { b } else { b + 1 };
                                    assert(list@[a] == before[a0] && list@[b] == before[b0]);
                                }
                            }
                            self.events.insert(name.clone(), list);
                            assert(self@ =~= old(self)@.insert(k, before.remove_value(id)));
                        }
                    },
                }
            },
        }
    }

    /// Registers a listener of `name` under a freshly drawn identifier and
    /// returns it; `None`, with nothing changed, in the unlikely case that the
    /// identifier already listens for `name`.
    pub fn register_listener(&mut self, name: String) -> (r: Option<u128>)
        requires
            old(self).wf(),
        ensures
            final(self).wf(),
            match r {
                Some(id) => !listeners(old(self)@, name@).contains(id)
                    && final(self)@ == after_subscribe(old(self)@, name@, id),
                None => final(self)@ == old(self)@ && listeners(old(self)@, name@).len() > 0,
            },
    {
        let id = fresh_id();
        if self.subscribe(name, id) {
            Some(id)
        } else {
            None
        }
    }
}

/// A listener that subscribed before a delivery is among its recipients,
/// however many others listen for the same name; once it leaves, it no
/// longer is, and every other listener and every other name stays as it was.
pub proof fn lemma_listen_deliver_leave(
    m: Map<Seq<char>, Seq<u128>>,
    name: Seq<char>,
    a: u128,
    b: u128,
)
    requires
        a != b,
        listeners(m, name).no_duplicates(),
    ensures
        ({
            let m1 = after_subscribe(after_subscribe(m, name, a), name, b);
            let m2 = after_unsubscribe(m1, name, a);
            &&& listeners(m1, name).contains(a)
            &&& listeners(m1, name).contains(b)
            &&& !listeners(m2, name).contains(a)
            &&& listeners(m2, name).contains(b)
            &&& forall|n: Seq<char>| n != name ==> listeners(m2, n) == listeners(m, n)
        }),
{
    let m0 = after_subscribe(m, name, a);
    let m1 = after_subscribe(m0, name, b);
    let l0 = listeners(m0, name);
    let l1 = listeners(m1, name);
    if !listeners(m, name).contains(a) {
        assert(l0 == listeners(m, name).push(a));
        assert(l0[l0.len() - 1] == a);
    }
    assert(l0.contains(a));
    assert(l0.no_duplicates()) by {
        if !listeners(m, name).contains(a) {
            let l = listeners(m, name);
            assert forall|x: int, y: int| 0 <= x < y < l0.len() implies l0[x] != l0[y] by {
                if y == l0.len() - 1 {
                    assert(l0[x] == l[x]);
                }
            }
        }
    }
    if !l0.contains(b) {
        assert(l1 == l0.push(b));
        let x = choose|x: int| 0 <= x < l0.len() && l0[x] == a;
        assert(l1[x] == a);
        assert(l1[l1.len() - 1] == b);
        assert(l1.no_duplicates()) by {
            assert forall|x: int, y: int| 0 <= x < y < l1.len() implies l1[x] != l1[y] by {
                if y == l1.len() - 1 {
                    assert(l1[x] == l0[x]);
                }
            }
        }
    }
    assert(l1.contains(a) && l1.contains(b));
    assert(l1.no_duplicates());
    let m2 = after_unsubscribe(m1, name, a);
    let rest = l1.remove_value(a);
    l1.index_of_first_ensures(a);
    let i = l1.index_of_first(a)->Some_0;
    assert(rest == l1.remove(i));
    let j = choose|j: int| 0 <= j < l1.len() && l1[j] == b;
    assert(j != i);
    let j2 = if j < i { j } else { j - 1 };
    assert(rest[j2] == b);
    assert(rest.len() > 0);
    assert(listeners(m2, name) == rest);
    assert(rest.contains(b));
    assert(!rest.contains(a)) by {
        if rest.contains(a) {
            let k = choose|k: int| 0 <= k < rest.len() && rest[k] == a;
            let k0 = if k < i { k } else { k + 1 };
            assert(l1[k0] == a);
        }
    }
}

} // verus!
