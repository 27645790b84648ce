//! The registry of known castors.
//!
//! The registry is a map from castor name to entry, kept as a vector sorted
//! by name, so listing is deterministic. It remembers the file it is backed
//! by; reading and writing that file (JSON) happens at the edge of the
//! program, through a [`RegistryStore`].

use vstd::prelude::*;

use crate::base::domain::{CastorName, ImageTag, MountDir};
use crate::base::paths::{registry_path, state_dir_of, REGISTRY_FILENAME};
use crate::base::domain::path_join;
use crate::sorted::{
    as_map, find_key, has_key, index_of_key, insert_new, key_lt, lemma_as_map_at,
    lemma_empty_sorted, remove_key, sorted_by_key, Keyed, SpecKey,
};
use crate::config::identity::name_views;
use crate::text::{owned, push_str, seq_lt};

verus! {

/// A point in time: whole seconds and nanoseconds since the Unix epoch, UTC.
#[derive(Clone, Copy, Debug, PartialEq, Eq, Structural)]
pub struct CreatedAt {
    pub secs: i64,
    pub nanos: u32,
}

/// The RFC 3339 text that chrono writes for the UTC instant `secs` seconds
/// and `nanos` nanoseconds after the Unix epoch.
pub uninterp spec fn rfc3339_text(secs: i64, nanos: u32) -> Seq<char>;

/// An instant with a sub-second part under one second, at most
/// 8,000,000,000,000 seconds (about 250,000 years) from the epoch: well
/// inside the dates chrono represents.
pub open spec fn representable(at: CreatedAt) -> bool {
    &&& at.nanos < 1_000_000_000
    &&& -8_000_000_000_000 <= at.secs <= 8_000_000_000_000
}

/// `chrono::DateTime::<Utc>::from_timestamp(secs, nanos)` and, when that
/// instant exists, its `to_rfc3339()`. Claimed: a text is the named RFC 3339
/// text of the instant, and every [`representable`] instant has one. Not
/// claimed: which instants beyond that range chrono still represents.
#[verifier::external_body]
pub(crate) fn rfc3339(at: CreatedAt) -> (r: Option<String>)
    ensures
        r matches Some(s) ==> s@ == rfc3339_text(at.secs, at.nanos),
        representable(at) ==> r is Some,
{
    match chrono::DateTime::<chrono::Utc>::from_timestamp(at.secs, at.nanos) {
        Some(t) => Some(t.to_rfc3339()),
        None => None,
    }
}

/// Metadata kept for each castor.
#[derive(Debug, PartialEq, Eq)]
pub struct CastorEntry {
    pub name: CastorName,
    pub image: ImageTag,
    pub mount_dir: MountDir,
    pub created_at: CreatedAt,
}

/// The abstract value of a [`CastorEntry`].
pub struct EntryView {
    pub name: Seq<char>,
    pub image: Seq<char>,
    pub mount_dir: Seq<char>,
    pub created_at: CreatedAt,
}

impl View for CastorEntry {
    type V = EntryView;

    open spec fn view(&self) -> EntryView {
        EntryView {
            name: self.name@,
            image: self.image@,
            mount_dir: self.mount_dir@,
            created_at: self.created_at,
        }
    }
}

impl Clone for CastorEntry {
    fn clone(&self) -> (r: Self)
        ensures
            r@ == self@,
    {
        CastorEntry {
            name: self.name.clone(),
            image: self.image.clone(),
            mount_dir: self.mount_dir.clone(),
            created_at: self.created_at,
        }
    }
}

impl Keyed for CastorEntry {
    open spec fn key_spec(&self) -> SpecKey {
        (self.name@, Seq::empty())
    }

    fn key_first(&self) -> (r: &str) {
        self.name.as_str()
    }

    fn key_second(&self) -> (r: &str) {
        proof {
            reveal_strlit("");
        }
        ""
    }
}

// ---------------------------------------------------------------------------
// Errors
// ---------------------------------------------------------------------------

/// Errors produced by registry operations.
#[derive(Debug, PartialEq, Eq)]
pub enum RegistryError {
    AlreadyExists(CastorName),
    NotFound(CastorName),
    Read { path: String, message: String },
    Write { path: String, message: String },
    Parse { path: String, message: String },
    Serialize(String),
    NoDefaultPath,
}

impl RegistryError {
    /// The human-readable text of this error.
    pub fn to_string(&self) -> (r: String)
        ensures
            match self {
                RegistryError::AlreadyExists(n) => r@ == "castor "@ + n@ + " already exists"@,
                RegistryError::NotFound(n) => r@ == "castor "@ + n@ + " not found"@,
                RegistryError::Read { path, .. } => r@ == "failed to read registry at "@ + path@,
                RegistryError::Write { path, .. } => r@ == "failed to write registry at "@ + path@,
                RegistryError::Parse { path, .. } => r@ == "failed to parse registry at "@ + path@,
                RegistryError::Serialize(_) => r@ == "failed to serialize registry"@,
                RegistryError::NoDefaultPath => r@ == "could not determine default registry path"@,
            },
    {
        match self {
            RegistryError::AlreadyExists(n) => {
                let mut r = owned("castor ");
                push_str(&mut r, n.as_str());
                push_str(&mut r, " already exists");
                r
            },
            RegistryError::NotFound(n) => {
                let mut r = owned("castor ");
                push_str(&mut r, n.as_str());
                push_str(&mut r, " not found");
                r
            },
            RegistryError::Read { path, .. } => {
                let mut r = owned("failed to read registry at ");
                push_str(&mut r, path.as_str());
                r
            },
            RegistryError::Write { path, .. } => {
                let mut r = owned("failed to write registry at ");
                push_str(&mut r, path.as_str());
                r
            },
            RegistryError::Parse { path, .. } => {
                let mut r = owned("failed to parse registry at ");
                push_str(&mut r, path.as_str());
                r
            },
            RegistryError::Serialize(_) => owned("failed to serialize registry"),
            RegistryError::NoDefaultPath => owned("could not determine default registry path"),
        }
    }
}

/// Returns the default registry path, `~/.castors/.state/registry.json`, or
/// [`RegistryError::NoDefaultPath`] without a home directory.
pub fn default_path() -> (r: Result<String, RegistryError>)
    ensures
        match r {
            Ok(p) => exists|h: Seq<char>|
                h.len() > 0 && p@ == path_join(state_dir_of(h), REGISTRY_FILENAME@),
            Err(e) => e is NoDefaultPath,
        },
{
    match registry_path() {
        Some(p) => Ok(p),
        None => Err(RegistryError::NoDefaultPath),
    }
}

// ---------------------------------------------------------------------------
// Registry
// ---------------------------------------------------------------------------

/// Map of known castors, by name, backed by a file.
#[derive(Debug)]
pub struct Registry {
    path: String,
    castors: Vec<CastorEntry>,
}

impl View for Registry {
    type V = Map<Seq<char>, EntryView>;

    closed spec fn view(&self) -> Map<Seq<char>, EntryView> {
        Map::new(
            |n: Seq<char>| as_map(self.castors@).contains_key((n, Seq::empty())),
            |n: Seq<char>| as_map(self.castors@)[(n, Seq::empty())]@,
        )
    }
}

/// The names of a list of entries sort strictly increasing.
pub open spec fn sorted_by_name(s: Seq<EntryView>) -> bool {
    forall|i: int, j: int| 0 <= i < j < s.len() ==> seq_lt(#[trigger] s[i].name, #[trigger] s[j].name)
}

/// `s` lists exactly the entries of `m`, each once.
pub open spec fn lists(s: Seq<EntryView>, m: Map<Seq<char>, EntryView>) -> bool {
    &&& forall|i: int| 0 <= i < s.len() ==> #[trigger] m.contains_key(s[i].name) && m[s[i].name] == s[i]
    &&& forall|n: Seq<char>| #[trigger] m.contains_key(n) ==> exists|i: int| 0 <= i < s.len() && s[i].name == n
    &&& sorted_by_name(s)
}

impl Registry {
    #[verifier::type_invariant]
    closed spec fn inv(self) -> bool {
        sorted_by_key(self.castors@)
    }

    /// The file this registry is backed by.
    pub closed spec fn location(&self) -> Seq<char> {
        self.path@
    }

    /// The entries in name order.
    pub closed spec fn entries(&self) -> Seq<EntryView> {
        self.castors@.map_values(|e: CastorEntry| e@)
    }

    proof fn lemma_view_at(&self, i: int)
        requires
            sorted_by_key(self.castors@),
            0 <= i < self.castors@.len(),
        ensures
            self@.contains_key(self.castors@[i]@.name),
            self@[self.castors@[i]@.name] == self.castors@[i]@,
    {
        lemma_as_map_at(self.castors@, i);
    }

    proof fn lemma_lists(&self)
        requires
            sorted_by_key(self.castors@),
        ensures
            lists(self.entries(), self@),
    {
        let s = self.entries();
        assert forall|i: int| 0 <= i < s.len() implies #[trigger] self@.contains_key(s[i].name)
            && self@[s[i].name] == s[i] by {
            self.lemma_view_at(i);
        }
        assert forall|n: Seq<char>| #[trigger] self@.contains_key(n) implies exists|i: int|
            0 <= i < s.len() && s[i].name == n by {
            let i = index_of_key(self.castors@, (n, Seq::empty()));
            assert(s[i].name == n);
        }
        assert forall|i: int, j: int| 0 <= i < j < s.len() implies seq_lt(
            #[trigger] s[i].name,
            #[trigger] s[j].name,
        ) by {
            assert(key_lt(self.castors@[i].key_spec(), self.castors@[j].key_spec()));
            crate::text::lemma_lt_irreflexive(Seq::<char>::empty());
        }
    }

    /// An empty registry backed by `path`; nothing is written until it is
    /// saved.
    pub fn new(path: &str) -> (r: Self)
        ensures
            r@ == Map::<Seq<char>, EntryView>::empty(),
            r.entries().len() == 0,
            r.location() == path@,
    {
        let r = Registry { path: owned(path), castors: Vec::new() };
        proof {
            lemma_empty_sorted(r.castors@);
            assert(r@ =~= Map::<Seq<char>, EntryView>::empty());
            assert(r.entries() =~= Seq::<EntryView>::empty());
        }
        r
    }

    /// Inserts a new castor, failing with [`RegistryError::AlreadyExists`]
    /// if the name is taken (the registry is then unchanged).
    pub fn insert(&mut self, entry: CastorEntry) -> (r: Result<(), RegistryError>)
        ensures
            final(self).location() == old(self).location(),
            match r {
                Ok(()) => !old(self)@.contains_key(entry.name@) && final(self)@ == old(self)@.insert(
                    entry.name@,
                    entry@,
                ) && final(self).entries().len() == old(self).entries().len() + 1,
                Err(e) => old(self)@.contains_key(entry.name@) && final(self)@ == old(self)@
                    && final(self).entries() == old(self).entries()
                    && (e matches RegistryError::AlreadyExists(n) && n@ == entry.name@),
            },
    {
        proof {
            use_type_invariant(&*self);
        }
        let ghost ev = entry@;
        let ghost before = self.castors@;
        let mut castors = Vec::new();
        std::mem::swap(&mut castors, &mut self.castors);
        let res = insert_new(&mut castors, entry);
        let ghost after = castors@;
        self.castors = castors;
        match res {
            Some(e) => {
                proof {
                    assert(has_key(before, (ev.name, Seq::empty())));
                    assert(as_map(before).contains_key((ev.name, Seq::empty())));
                }
                Err(RegistryError::AlreadyExists(e.name))
            },
            None => {
                proof {
                    assert(!as_map(before).contains_key((ev.name, Seq::empty())));
                    assert(self@ =~= old(self)@.insert(ev.name, ev));
                }
                Ok(())
            },
        }
    }

    /// Looks up a castor by name.
    pub fn get(&self, name: &CastorName) -> (r: Option<&CastorEntry>)
        ensures
            match r {
                Some(e) => self@.contains_key(name@) && self@[name@] == e@ && e@.name == name@,
                None => !self@.contains_key(name@),
            },
    {
        proof {
            use_type_invariant(self);
        }
        proof {
            reveal_strlit("");
            assert(""@ =~= Seq::<char>::empty());
        }
        match find_key(&self.castors, name.as_str(), "") {
            Some(i) => Some(&self.castors[i]),
            None => None,
        }
    }

    /// Removes a castor by name and returns its entry, failing with
    /// [`RegistryError::NotFound`] if the name is absent (the registry is
    /// then unchanged).
    pub fn remove(&mut self, name: &CastorName) -> (r: Result<CastorEntry, RegistryError>)
        ensures
            final(self).location() == old(self).location(),
            match r {
                Ok(e) => old(self)@.contains_key(name@) && old(self)@[name@] == e@ && final(self)@
                    == old(self)@.remove(name@),
                Err(e) => !old(self)@.contains_key(name@) && final(self)@ == old(self)@
                    && (e matches RegistryError::NotFound(n) && n@ == name@),
            },
    {
        proof {
            use_type_invariant(&*self);
            reveal_strlit("");
            assert(""@ =~= Seq::<char>::empty());
        }
        let mut castors = Vec::new();
        std::mem::swap(&mut castors, &mut self.castors);
        let res = remove_key(&mut castors, name.as_str(), "");
        self.castors = castors;
        match res {
            Some(e) => {
                proof {
                    assert(self@ =~= old(self)@.remove(name@));
                }
                Ok(e)
            },
            None => {
                proof {
                    assert(self@ =~= old(self)@);
                }
                Err(RegistryError::NotFound(name.clone()))
            },
        }
    }

    /// All entries, in name order.
    pub fn list(&self) -> (r: &Vec<CastorEntry>)
        ensures
            r@.map_values(|e: CastorEntry| e@) == self.entries(),
            lists(self.entries(), self@),
    {
        proof {
            use_type_invariant(self);
            self.lemma_lists();
        }
        &self.castors
    }

    /// The names of all entries, in name order.
    pub fn names(&self) -> (r: Vec<CastorName>)
        ensures
            r@.len() == self.entries().len(),
            forall|i: int| 0 <= i < r@.len() ==> #[trigger] r@[i]@ == self.entries()[i].name,
            lists(self.entries(), self@),
            forall|x: Seq<char>| name_views(r@).contains(x) <==> self@.contains_key(x),
    {
        proof {
            use_type_invariant(self);
            self.lemma_lists();
        }
        let mut r: Vec<CastorName> = Vec::new();
        let mut i: usize = 0;
        while i < self.castors.len()
            invariant
                i <= self.castors@.len(),
                r@.len() == i,
                forall|j: int| 0 <= j < i ==> #[trigger] r@[j]@ == self.castors@[j]@.name,
            decreases self.castors.len() - i,
        {
            r.push(self.castors[i].name.clone());
            i = i + 1;
        }
        proof {
            let s = self.entries();
            assert forall|x: Seq<char>| name_views(r@).contains(x) <==> self@.contains_key(x) by {
                if name_views(r@).contains(x) {
                    let j = choose|j: int| 0 <= j < name_views(r@).len() && name_views(r@)[j] == x;
                    assert(s[j].name == x);
                }
                if self@.contains_key(x) {
                    let j = choose|j: int| 0 <= j < s.len() && s[j].name == x;
                    assert(name_views(r@)[j] == x);
                }
            }
        }
        r
    }

    /// Removes all entries.
    pub fn clear(&mut self)
        ensures
            final(self)@ == Map::<Seq<char>, EntryView>::empty(),
            final(self).entries().len() == 0,
            final(self).location() == old(self).location(),
    {
        self.castors = Vec::new();
        proof {
            lemma_empty_sorted(self.castors@);
            assert(self@ =~= Map::<Seq<char>, EntryView>::empty());
        }
    }

    /// The file this registry is backed by.
    pub fn path(&self) -> (r: &str)
        ensures
            r@ == self.location(),
    {
        self.path.as_str()
    }

    /// The number of registered castors.
    pub fn len(&self) -> (r: usize)
        ensures
            r == self.entries().len(),
            lists(self.entries(), self@),
    {
        proof {
            use_type_invariant(self);
            self.lemma_lists();
        }
        self.castors.len()
    }

    /// Whether no castors are registered.
    pub fn is_empty(&self) -> (r: bool)
        ensures
            r == (self.entries().len() == 0),
            r == (self@ == Map::<Seq<char>, EntryView>::empty()),
    {
        proof {
            use_type_invariant(self);
            self.lemma_lists();
            if self.castors@.len() == 0 {
                assert(self@ =~= Map::<Seq<char>, EntryView>::empty());
            } else {
                self.lemma_view_at(0);
            }
        }
        self.castors.len() == 0
    }
}

/// Persists a registry to the file it is backed by.
pub trait RegistryStore {
    fn save(&self, registry: &Registry) -> Result<(), RegistryError>;
}

// ---------------------------------------------------------------------------
// Laws
// ---------------------------------------------------------------------------

/// Looking a name up right after inserting it gives back the inserted entry.
pub proof fn law_get_after_insert(m: Map<Seq<char>, EntryView>, e: EntryView)
    ensures
        m.insert(e.name, e).contains_key(e.name),
        m.insert(e.name, e)[e.name] == e,
{
}

/// Removing a freshly inserted name restores the registry as it was.
pub proof fn law_remove_undoes_insert(m: Map<Seq<char>, EntryView>, e: EntryView)
    requires
        !m.contains_key(e.name),
    ensures
        m.insert(e.name, e).remove(e.name) == m,
{
    assert(m.insert(e.name, e).remove(e.name) =~= m);
}

/// Inserting leaves every other name as it was.
pub proof fn law_insert_keeps_others(m: Map<Seq<char>, EntryView>, e: EntryView, n: Seq<char>)
    requires
        n != e.name,
    ensures
        m.insert(e.name, e).contains_key(n) == m.contains_key(n),
        m.contains_key(n) ==> m.insert(e.name, e)[n] == m[n],
{
}

} // verus!
