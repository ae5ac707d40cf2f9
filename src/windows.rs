//! The live windows, owned under their platform identifiers, and the
//! application's logical names for them.
use vstd::prelude::*;
use std::collections::HashMap;
use crate::table::StrMap;

verus! {

broadcast use vstd::std_specs::hash::group_hash_axioms;

/// The logical names left once every name of `pid` is dropped.
pub open spec fn names_without(m: Map<Seq<char>, u64>, pid: u64) -> Map<Seq<char>, u64> {
    m.restrict(m.dom().filter(|k: Seq<char>| m[k] != pid))
}

/// An event that the window loop hands to the table.
#[derive(Debug, Clone, PartialEq, Eq)]
pub enum WindowEvent {
    /// The user asked to close the window with that platform identifier.
    CloseRequested(u64),
    /// The window with that platform identifier changed size.
    Resized(u64),
    /// Evaluate the script text in the window with that logical name.
    RunScript(String, String),
}

/// What the window loop does next.
#[derive(Debug, Clone, PartialEq, Eq)]
pub enum LoopAction {
    /// No window is left: leave the loop.
    Exit,
    /// Nothing to do: wait for the next event.
    Wait,
    /// Evaluate `script` in the live window `window`.
    Evaluate { window: u64, script: String },
    /// Lay out the content of the live window again.
    Resize(u64),
}

/// Live windows keyed by platform identifier, and logical names that refer
/// to live windows.
pub struct WindowTable<W> {
    windows: HashMap<u64, W>,
    names: StrMap<u64>,
}

impl<W> WindowTable<W> {
    /// The live windows by platform identifier.
    pub closed spec fn live(&self) -> Map<u64, W> {
        self.windows@
    }

    /// The logical names and the platform identifiers they refer to.
    pub closed spec fn names(&self) -> Map<Seq<char>, u64> {
        self.names@
    }

    /// The name table is well formed.
    pub closed spec fn tables_wf(&self) -> bool {
        self.names.wf()
    }

    /// Every logical name refers to a live window.
    pub open spec fn wf(&self) -> bool {
        &&& self.tables_wf()
        &&& forall|k: Seq<char>| #[trigger] self.names().contains_key(k) ==> self.live().contains_key(self.names()[k])
    }

    pub fn new() -> (r: Self)
        ensures
            r.wf(),
            r.live() == Map::<u64, W>::empty(),
            r.names() == Map::<Seq<char>, u64>::empty(),
    {
        WindowTable { windows: HashMap::new(), names: StrMap::new() }
    }

    /// A window was built: it becomes live under `pid`, and `logical` now
    /// names it.
    pub fn open(&mut self, logical: String, pid: u64, window: W)
        requires
            old(self).wf(),
        ensures
            final(self).wf(),
            final(self).live() == old(self).live().insert(pid, window),
            final(self).names() == old(self).names().insert(logical@, pid),
    {
        self.windows.insert(pid, window);
        self.names.insert(logical, pid);
        assert forall|k: Seq<char>| #[trigger] self.names().contains_key(k) implies self.live().contains_key(self.names()[k]) by {
            if k != logical@ {
                assert(old(self).names().contains_key(k));
            }
        }
    }

    /// The live window that `logical` names, if any. Looking up a name with
    /// no live window changes nothing.
    pub fn window_for(&self, logical: &String) -> (r: Option<&W>)
        requires
            self.wf(),
        ensures
            r is None <==> !self.names().contains_key(logical@),
            r matches Some(w) ==> self.live()[self.names()[logical@]] == *w,
    {
        match self.names.get(logical) {
            Some(pid) => {
                let p: u64 = *pid;
                self.windows.get(&p)
            },
            None => None,
        }
    }

    /// The live window under `pid`, if any.
    pub fn get(&self, pid: u64) -> (r: Option<&W>)
        ensures
            r is None <==> !self.live().contains_key(pid),
            r matches Some(w) ==> self.live()[pid] == *w,
    {
        self.windows.get(&pid)
    }

    /// Number of live windows.
    pub fn live_count(&self) -> (r: usize)
        ensures
            r == self.live().len(),
    {
        self.windows.len()
    }

    /// The window under `pid` closes: it leaves the table with every logical
    /// name that refers to it. Returns whether no window is left, which ends
    /// the event loop.
    pub fn close(&mut self, pid: u64) -> (r: bool)
        requires
            old(self).wf(),
        ensures
            final(self).wf(),
            final(self).live() == old(self).live().remove(pid),
            final(self).names() == names_without(old(self).names(), pid),
            r == final(self).live().is_empty(),
    {
        let _ = self.windows.remove(&pid);
        let keys = self.names.keys();
        let ghost old_names = old(self).names@;
        let mut i: usize = 0;
        while i < keys.len()
            invariant
                self.names.wf(),
                self.windows@ == old(self).windows@.remove(pid),
                i <= keys@.len(),
                forall|k: Seq<char>| old_names.contains_key(k) <==> exists|j: int| 0 <= j < keys@.len() && keys@[j]@ == k,
                forall|k: Seq<char>| #[trigger] self.names@.contains_key(k) <==> (old_names.contains_key(k)
                    && !(old_names[k] == pid && exists|j: int| 0 <= j < i && keys@[j]@ == k)),
                forall|k: Seq<char>| #[trigger] self.names@.contains_key(k) ==> self.names@[k] == old_names[k],
            decreases keys@.len() - i,
        {
            let hit = match self.names.get(&keys[i]) {
                Some(p) => *p == pid,
                None => false,
            };
            let ghost ki = keys@[i as int]@;
            let ghost before = self.names@;
            if hit {
                let _ = self.names.remove(&keys[i]);
            }
            i = i + 1;
            assert forall|k: Seq<char>| #[trigger] self.names@.contains_key(k) <==> (old_names.contains_key(k)
                && !(old_names[k] == pid && exists|j: int| 0 <= j < i && keys@[j]@ == k)) by {
                if k == ki {
                    assert(keys@[i - 1]@ == k);
                } else if exists|j: int| 0 <= j < i && keys@[j]@ == k {
                    let j = choose|j: int| 0 <= j < i && keys@[j]@ == k;
                    assert(j < i - 1);
                }
            }
        }
        assert(self.names@ =~= names_without(old_names, pid));
        assert forall|k: Seq<char>| #[trigger] self.names().contains_key(k) implies self.live().contains_key(self.names()[k]) by {
            assert(old(self).names().contains_key(k));
            assert(old(self).live().contains_key(old(self).names()[k]));
        }
        self.windows.is_empty()
    }
}

impl<W> WindowTable<W> {
    /// One step of the window loop. Closing removes the window and its names
    /// and exits when none is left; a resize of a live window re-lays it out;
    /// a script for a logical name is evaluated in the window it names, and
    /// dropped, changing nothing, when no live window has that name.
    pub fn handle(&mut self, ev: WindowEvent) -> (r: LoopAction)
        requires
            old(self).wf(),
        ensures
            final(self).wf(),
            match ev {
                WindowEvent::CloseRequested(pid) => {
                    &&& final(self).live() == old(self).live().remove(pid)
                    &&& final(self).names() == names_without(old(self).names(), pid)
                    &&& r == if final(self).live().is_empty() { LoopAction::Exit } else { LoopAction::Wait }
                },
                WindowEvent::Resized(pid) => {
                    &&& final(self).live() == old(self).live()
                    &&& final(self).names() == old(self).names()
                    &&& r == if old(self).live().contains_key(pid) { LoopAction::Resize(pid) } else { LoopAction::Wait }
                },
                WindowEvent::RunScript(logical, script) => {
                    &&& final(self).live() == old(self).live()
                    &&& final(self).names() == old(self).names()
                    &&& if old(self).names().contains_key(logical@) {
                        r matches LoopAction::Evaluate { window, script: s }
                            && window == old(self).names()[logical@] && s@ == script@
                            && old(self).live().contains_key(window)
                    } else {
                        r == LoopAction::Wait
                    }
                },
            },
    {
        match ev {
            WindowEvent::CloseRequested(pid) => {
                if self.close(pid) {
                    LoopAction::Exit
                } else {
                    LoopAction::Wait
                }
            },
            WindowEvent::Resized(pid) => {
                if self.windows.contains_key(&pid) {
                    LoopAction::Resize(pid)
                } else {
                    LoopAction::Wait
                }
            },
            WindowEvent::RunScript(logical, script) => {
                match self.names.get(&logical) {
                    Some(pid) => LoopAction::Evaluate { window: *pid, script },
                    None => LoopAction::Wait,
                }
            },
        }
    }
}

/// Closing the last live window ends the event loop. Closing any other
/// window leaves every other window live and unchanged, drops only the names
/// of the closed window, and keeps the loop running.
pub proof fn lemma_close_window<W>(
    before: &WindowTable<W>,
    after: &WindowTable<W>,
    pid: u64,
    other: u64,
    name: Seq<char>,
)
    requires
        before.wf(),
        before.live().contains_key(pid),
        after.live() == before.live().remove(pid),
        after.names() == names_without(before.names(), pid),
    ensures
        before.live().dom() == set![pid] ==> after.live().is_empty(),
        other != pid && before.live().contains_key(other) ==> {
            &&& !after.live().is_empty()
            &&& after.live().contains_key(other)
            &&& after.live()[other] == before.live()[other]
        },
        before.names().contains_key(name) && before.names()[name] != pid
            ==> after.names().contains_key(name) && after.names()[name] == before.names()[name],
        before.names().contains_key(name) && before.names()[name] == pid
            ==> !after.names().contains_key(name),
{
    if before.live().dom() == set![pid] {
        assert(after.live().dom() =~= Set::<u64>::empty());
    }
    if other != pid && before.live().contains_key(other) {
        assert(after.live().dom().contains(other));
    }
}

} // verus!
