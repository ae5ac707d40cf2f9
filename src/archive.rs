//! The module collection that a packaged binary carries: each specifier
//! maps to a module kind and its source bytes.
use vstd::prelude::*;
use crate::table::StrMap;

verus! {

/// How the engine treats a module's source.
#[derive(Debug, Clone, Copy, PartialEq, Eq, Structural)]
pub enum ModuleKind {
    JavaScript,
    Json,
}

/// One module: its absolute specifier, kind and source bytes.
#[derive(Debug)]
pub struct ModuleRecord {
    pub specifier: String,
    pub kind: ModuleKind,
    pub source: Vec<u8>,
}

/// Errors of [`Archive::insert`].
#[derive(Debug, Clone, Copy, PartialEq, Eq, Structural)]
pub enum ArchiveError {
    /// A module with that specifier is already held.
    DuplicateSpecifier,
}

/// A collection of modules with unique specifiers.
pub struct Archive {
    modules: StrMap<ModuleRecord>,
}

impl View for Archive {
    type V = Map<Seq<char>, (ModuleKind, Seq<u8>)>;

    closed spec fn view(&self) -> Self::V {
        self.modules@.map_values(|r: ModuleRecord| (r.kind, r.source@))
    }
}

impl Archive {
    /// Each module is held under its own specifier.
    pub closed spec fn wf(&self) -> bool {
        &&& self.modules.wf()
        &&& forall|k: Seq<char>| #[trigger] self.modules@.contains_key(k) ==> self.modules@[k].specifier@ == k
    }

    /// An archive with no modules.
    pub fn new() -> (r: Archive)
        ensures
            r.wf(),
            r@ == Map::<Seq<char>, (ModuleKind, Seq<u8>)>::empty(),
    {
        let r = Archive { modules: StrMap::new() };
        assert(r@ =~= Map::<Seq<char>, (ModuleKind, Seq<u8>)>::empty());
        r
    }

    /// Number of modules held.
    pub fn len(&self) -> (r: usize)
        requires
            self.wf(),
        ensures
            r == self@.len(),
    {
        let n = self.modules.len();
        assert(self@.dom() =~= self.modules@.dom());
        n
    }

    /// Adds a module. Refused when its specifier is already held.
    pub fn insert(&mut self, record: ModuleRecord) -> (r: Result<(), ArchiveError>)
        requires
            old(self).wf(),
        ensures
            final(self).wf(),
            r is Err <==> old(self)@.contains_key(record.specifier@),
            r is Ok ==> final(self)@ == old(self)@.insert(record.specifier@, (record.kind, record.source@)),
            r is Err ==> final(self)@ == old(self)@ && r == Err::<(), ArchiveError>(ArchiveError::DuplicateSpecifier),
    {
        if self.modules.get(&record.specifier).is_some() {
            return Err(ArchiveError::DuplicateSpecifier);
        }
        let ghost k = record.specifier@;
        let ghost v = (record.kind, record.source@);
        let key = record.specifier.clone();
        self.modules.insert(key, record);
        assert(self@ =~= old(self)@.insert(k, v));
        Ok(())
    }

    /// The module held under `specifier`, if any.
    pub fn get_module(&self, specifier: &String) -> (r: Option<&ModuleRecord>)
        requires
            self.wf(),
        ensures
            r is None <==> !self@.contains_key(specifier@),
            r matches Some(m) ==> m.specifier@ == specifier@
                && self@[specifier@] == (m.kind, m.source@),
    {
        self.modules.get(specifier)
    }

    /// The specifiers of all modules held, each once.
    pub fn specifiers(&self) -> (r: Vec<String>)
        requires
            self.wf(),
        ensures
            r@.len() == self@.len(),
            forall|k: Seq<char>| self@.contains_key(k) <==> exists|i: int| 0 <= i < r@.len() && r@[i]@ == k,
    {
        let r = self.modules.keys();
        assert(self@.dom() =~= self.modules@.dom());
        r
    }
}

} // verus!
