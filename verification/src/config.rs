//! Configuration, mirroring `safe-cargo.toml`, and the allow-list.
use vstd::prelude::*;

use crate::text::{cat3, owned, same_text};

verus! {

/// A manually allowed crate version, with the reason for the audit trail.
#[derive(Debug)]
pub struct AllowEntry {
    pub version: String,
    pub reason: String,
}

impl View for AllowEntry {
    /// The version and the reason.
    type V = (Seq<char>, Seq<char>);

    open spec fn view(&self) -> (Seq<char>, Seq<char>) {
        (self.version@, self.reason@)
    }
}

/// The `[allow]` table: crate names mapped to allowed entries.  No name
/// occurs twice.
#[derive(Debug)]
pub struct AllowTable {
    entries: Vec<(String, AllowEntry)>,
}

/// The map described by a list of entries, later entries winning.
pub closed spec fn entries_map(e: Seq<(String, AllowEntry)>) -> Map<
    Seq<char>,
    (Seq<char>, Seq<char>),
>
    decreases e.len(),
{
    if e.len() == 0 {
        Map::empty()
    } else {
        entries_map(e.drop_last()).insert(e.last().0@, e.last().1@)
    }
}

/// No two entries share a name.
pub closed spec fn distinct_names(e: Seq<(String, AllowEntry)>) -> bool {
    forall|i: int, j: int| 0 <= i < j < e.len() ==> #[trigger] e[i].0@ != #[trigger] e[j].0@
}

proof fn lemma_distinct_prefix(e: Seq<(String, AllowEntry)>)
    requires
        distinct_names(e),
        e.len() > 0,
    ensures
        distinct_names(e.drop_last()),
{
    let d = e.drop_last();
    assert forall|a: int, b: int| 0 <= a < b < d.len() implies #[trigger] d[a].0@
        != #[trigger] d[b].0@ by {
        assert(d[a] == e[a] && d[b] == e[b]);
        assert(e[a].0@ != e[b].0@);
    }
}

proof fn lemma_entries_map_has(e: Seq<(String, AllowEntry)>, i: int)
    requires
        distinct_names(e),
        0 <= i < e.len(),
    ensures
        entries_map(e).contains_key(e[i].0@),
        entries_map(e)[e[i].0@] == e[i].1@,
    decreases e.len(),
{
    if i < e.len() - 1 {
        lemma_distinct_prefix(e);
        lemma_entries_map_has(e.drop_last(), i);
        assert(e.drop_last()[i] == e[i]);
        assert(e[i].0@ != e[e.len() - 1].0@);
    }
}

/// No entry is named `k`.
closed spec fn lacks_name(e: Seq<(String, AllowEntry)>, k: Seq<char>) -> bool {
    forall|i: int| 0 <= i < e.len() ==> #[trigger] e[i].0@ != k
}

proof fn lemma_entries_map_lacks(e: Seq<(String, AllowEntry)>, k: Seq<char>)
    requires
        lacks_name(e, k),
    ensures
        !entries_map(e).contains_key(k),
    decreases e.len(),
{
    if e.len() > 0 {
        assert forall|i: int| 0 <= i < e.drop_last().len() implies #[trigger] e.drop_last()[i].0@
            != k by {
            assert(e.drop_last()[i] == e[i]);
        }
        lemma_entries_map_lacks(e.drop_last(), k);
    }
}

proof fn lemma_entries_map_update(e: Seq<(String, AllowEntry)>, i: int, v: AllowEntry)
    requires
        distinct_names(e),
        0 <= i < e.len(),
    ensures
        entries_map(e.update(i, (e[i].0, v))) == entries_map(e).insert(e[i].0@, v@),
        distinct_names(e.update(i, (e[i].0, v))),
    decreases e.len(),
{
    let u = e.update(i, (e[i].0, v));
    assert forall|a: int, b: int| 0 <= a < b < u.len() implies #[trigger] u[a].0@
        != #[trigger] u[b].0@ by {
        assert(u[a].0@ == e[a].0@ && u[b].0@ == e[b].0@);
    }
    lemma_distinct_prefix(e);
    if i == e.len() - 1 {
        assert(u.drop_last() =~= e.drop_last());
        assert forall|j: int| 0 <= j < e.drop_last().len() implies #[trigger] e.drop_last()[j].0@
            != e[i].0@ by {
            assert(e.drop_last()[j] == e[j]);
            assert(e[j].0@ != e[i].0@);
        }
        lemma_entries_map_lacks(e.drop_last(), e[i].0@);
        assert(entries_map(e).insert(e[i].0@, v@) =~= entries_map(e.drop_last()).insert(
            e[i].0@,
            v@,
        ));
    } else {
        assert(u.drop_last() =~= e.drop_last().update(i, (e[i].0, v)));
        lemma_entries_map_update(e.drop_last(), i, v);
        assert(e[i].0@ != e.last().0@);
        assert(entries_map(u) =~= entries_map(e).insert(e[i].0@, v@));
    }
}

impl View for AllowTable {
    type V = Map<Seq<char>, (Seq<char>, Seq<char>)>;

    closed spec fn view(&self) -> Map<Seq<char>, (Seq<char>, Seq<char>)> {
        entries_map(self.entries@)
    }
}

impl AllowTable {
    #[verifier::type_invariant]
    closed spec fn names_distinct(self) -> bool {
        distinct_names(self.entries@)
    }

    /// An empty table.
    pub fn new() -> (t: AllowTable)
        ensures
            t@ == Map::<Seq<char>, (Seq<char>, Seq<char>)>::empty(),
    {
        AllowTable { entries: Vec::new() }
    }

    /// The table has no entries.
    pub fn is_empty(&self) -> (r: bool)
        ensures
            r == (self@ == Map::<Seq<char>, (Seq<char>, Seq<char>)>::empty()),
    {
        proof {
            use_type_invariant(self);
        }
        if self.entries.len() == 0 {
            assert(self@ =~= Map::<Seq<char>, (Seq<char>, Seq<char>)>::empty());
            true
        } else {
            proof {
                lemma_entries_map_has(self.entries@, 0);
            }
            false
        }
    }

    /// The number of entries.
    pub fn len(&self) -> (n: usize)
        ensures
            n == self@.len(),
    {
        proof {
            use_type_invariant(self);
            lemma_entries_map_len(self.entries@);
        }
        self.entries.len()
    }

    /// The names that have an entry, each once, in the order they were
    /// first allowed.
    pub fn names(&self) -> (r: Vec<String>)
        ensures
            r@.len() == self@.len(),
            forall|k: Seq<char>|
                self@.contains_key(k) <==> exists|i: int| 0 <= i < r@.len() && #[trigger] r@[i]@ == k,
    {
        proof {
            use_type_invariant(self);
            lemma_entries_map_len(self.entries@);
        }
        let mut r: Vec<String> = Vec::new();
        let mut i: usize = 0;
        while i < self.entries.len()
            invariant
                i <= self.entries@.len(),
                r@.len() == i,
                forall|j: int| 0 <= j < i ==> #[trigger] r@[j]@ == self.entries@[j].0@,
            decreases self.entries.len() - i,
        {
            r.push(self.entries[i].0.clone());
            i = i + 1;
        }
        proof {
            assert forall|k: Seq<char>| self@.contains_key(k) <==> exists|i: int|
                0 <= i < r@.len() && #[trigger] r@[i]@ == k by {
                if exists|i: int| 0 <= i < r@.len() && #[trigger] r@[i]@ == k {
                    let i = choose|i: int| 0 <= i < r@.len() && #[trigger] r@[i]@ == k;
                    lemma_entries_map_has(self.entries@, i);
                } else {
                    assert forall|j: int| 0 <= j < self.entries@.len() implies #[trigger] self.entries@[j].0@
                        != k by {
                        assert(r@[j]@ == self.entries@[j].0@);
                    }
                    lemma_entries_map_lacks(self.entries@, k);
                }
            }
        }
        r
    }

    /// The position of the entry for `name`, if there is one.
    fn position(&self, name: &str) -> (r: Option<usize>)
        ensures
            match r {
                Some(i) => i < self.entries@.len() && self.entries@[i as int].0@ == name@,
                None => lacks_name(self.entries@, name@),
            },
    {
        let mut i: usize = 0;
        while i < self.entries.len()
            invariant
                forall|j: int| 0 <= j < i ==> #[trigger] self.entries@[j].0@ != name@,
            decreases self.entries.len() - i,
        {
            if same_text(self.entries[i].0.as_str(), name) {
                return Some(i);
            }
            i = i + 1;
        }
        None
    }

    /// The entry allowed for `name`, if any.
    pub fn get(&self, name: &str) -> (r: Option<&AllowEntry>)
        ensures
            match r {
                Some(e) => self@.contains_key(name@) && self@[name@] == e@,
                None => !self@.contains_key(name@),
            },
    {
        proof {
            use_type_invariant(self);
        }
        match self.position(name) {
            Some(i) => {
                proof {
                    lemma_entries_map_has(self.entries@, i as int);
                }
                Some(&self.entries[i].1)
            },
            None => {
                proof {
                    lemma_entries_map_lacks(self.entries@, name@);
                }
                None
            },
        }
    }

    /// Allows `entry` for `name`, replacing and returning any entry the
    /// name had.
    pub fn insert(&mut self, name: String, entry: AllowEntry) -> (r: Option<AllowEntry>)
        ensures
            final(self)@ == old(self)@.insert(name@, entry@),
            match r {
                Some(e) => old(self)@.contains_key(name@) && old(self)@[name@] == e@,
                None => !old(self)@.contains_key(name@),
            },
    {
        proof {
            use_type_invariant(&*self);
        }
        let key: &str = name.as_str();
        let found = self.position(key);
        assert(key@ == name@);
        match found {
            Some(i) => {
                let ghost before = self.entries@;
                proof {
                    lemma_entries_map_has(before, i as int);
                    lemma_entries_map_update(before, i as int, entry);
                }
                let mut entries: Vec<(String, AllowEntry)> = Vec::new();
                std::mem::swap(&mut entries, &mut self.entries);
                let (key, old_entry) = entries.remove(i);
                entries.insert(i, (key, entry));
                assert(entries@ =~= before.update(i as int, (before[i as int].0, entry)));
                self.entries = entries;
                Some(old_entry)
            },
            None => {
                let ghost before = self.entries@;
                proof {
                    lemma_entries_map_lacks(before, name@);
                }
                let mut entries: Vec<(String, AllowEntry)> = Vec::new();
                std::mem::swap(&mut entries, &mut self.entries);
                entries.push((name, entry));
                assert(entries@.drop_last() =~= before);
                assert forall|a: int, b: int| 0 <= a < b < entries@.len() implies #[trigger] entries@[a].0@
                    != #[trigger] entries@[b].0@ by {
                    if b == entries@.len() - 1 {
                        assert(entries@[a] == before[a]);
                        assert(entries@[b].0@ == name@);
                        assert(before[a].0@ != name@);
                    } else {
                        assert(entries@[a] == before[a] && entries@[b] == before[b]);
                    }
                }
                self.entries = entries;
                None
            },
        }
    }
}

proof fn lemma_entries_map_len(e: Seq<(String, AllowEntry)>)
    requires
        distinct_names(e),
    ensures
        entries_map(e).dom().finite(),
        entries_map(e).len() == e.len(),
    decreases e.len(),
{
    if e.len() > 0 {
        lemma_distinct_prefix(e);
        lemma_entries_map_len(e.drop_last());
        assert forall|i: int| 0 <= i < e.drop_last().len() implies #[trigger] e.drop_last()[i].0@
            != e.last().0@ by {
            assert(e.drop_last()[i] == e[i]);
        }
        lemma_entries_map_lacks(e.drop_last(), e.last().0@);
    }
}

/// Where reports are read from and how they are authenticated.
#[derive(Debug)]
pub struct RegistryConfig {
    pub repo: String,
    pub branch: String,
    pub signing_key: Option<String>,
}

/// What a dependency's report must satisfy.
#[derive(Debug)]
pub struct PolicyConfig {
    pub min_release_age: String,
    pub max_score: u32,
    pub require_report: bool,
}

/// Top-level configuration, mirrors `safe-cargo.toml`.
#[derive(Debug)]
pub struct SafeCargoConfig {
    pub registry: RegistryConfig,
    pub policy: PolicyConfig,
    pub allow: AllowTable,
}

impl Default for RegistryConfig {
    fn default() -> (r: Self)
        ensures
            r.repo@ == "user/safe-cargo"@,
            r.branch@ == "main"@,
            r.signing_key is None,
    {
        RegistryConfig { repo: owned("user/safe-cargo"), branch: owned("main"), signing_key: None }
    }
}

impl Default for PolicyConfig {
    fn default() -> (r: Self)
        ensures
            r.min_release_age@ == "3d"@,
            r.max_score == 40,
            r.require_report,
    {
        PolicyConfig { min_release_age: owned("3d"), max_score: 40, require_report: true }
    }
}

impl Default for AllowTable {
    fn default() -> (r: Self)
        ensures
            r@ == Map::<Seq<char>, (Seq<char>, Seq<char>)>::empty(),
    {
        AllowTable::new()
    }
}

impl Default for SafeCargoConfig {
    fn default() -> (r: Self)
        ensures
            r.registry.repo@ == "user/safe-cargo"@,
            r.registry.branch@ == "main"@,
            r.registry.signing_key is None,
            r.policy.min_release_age@ == "3d"@,
            r.policy.max_score == 40,
            r.policy.require_report,
            r.allow@ == Map::<Seq<char>, (Seq<char>, Seq<char>)>::empty(),
    {
        SafeCargoConfig {
            registry: RegistryConfig::default(),
            policy: PolicyConfig::default(),
            allow: AllowTable::new(),
        }
    }
}

/// The key `name@version`, under which an entry may also be recorded.
pub open spec fn pinned_key(name: Seq<char>, version: Seq<char>) -> Seq<char> {
    name + "@"@ + version
}

/// The allow-list admits `name` at exactly `version`: the entry keyed by
/// the name, or the one keyed `name@version`, allows that version.
pub open spec fn allowed(allow: Map<Seq<char>, (Seq<char>, Seq<char>)>, name: Seq<char>, version: Seq<char>) -> bool {
    ||| allow.contains_key(name) && allow[name].0 == version
    ||| allow.contains_key(pinned_key(name, version)) && allow[pinned_key(name, version)].0 == version
}

/// After an entry is allowed for a name, the name is allowed at the
/// entry's version, and every other name keeps its standing unless the
/// new key is that name's `name@version` key.
pub proof fn law_allowed_after_insert(
    allow: Map<Seq<char>, (Seq<char>, Seq<char>)>,
    name: Seq<char>,
    entry: (Seq<char>, Seq<char>),
    other_name: Seq<char>,
    version: Seq<char>,
)
    ensures
        allowed(allow.insert(name, entry), name, entry.0),
        other_name != name && pinned_key(other_name, version) != name ==> (allowed(
            allow.insert(name, entry),
            other_name,
            version,
        ) <==> allowed(allow, other_name, version)),
{
}

impl SafeCargoConfig {
    /// Returns `true` if the crate at the given version is explicitly
    /// allow-listed in the `[allow]` table, under its name or under
    /// `name@version`.
    pub fn is_allowed(&self, name: &str, version: &str) -> (r: bool)
        ensures
            r == allowed(self.allow@, name@, version@),
    {
        let by_name = match self.allow.get(name) {
            Some(entry) => same_text(entry.version.as_str(), version),
            None => false,
        };
        if by_name {
            return true;
        }
        let key = cat3(name, "@", version);
        match self.allow.get(key.as_str()) {
            Some(entry) => same_text(entry.version.as_str(), version),
            None => false,
        }
    }
}

/// Candidate `i` is the nearest existing one: it exists and no candidate
/// before it does.
pub open spec fn nearest_existing(candidates: Seq<(String, bool)>, i: int) -> bool {
    &&& 0 <= i < candidates.len()
    &&& candidates[i].1
    &&& forall|j: int| 0 <= j < i ==> !(#[trigger] candidates[j]).1
}

/// No candidate exists.
pub open spec fn none_existing(candidates: Seq<(String, bool)>) -> bool {
    forall|j: int| 0 <= j < candidates.len() ==> !(#[trigger] candidates[j]).1
}

impl SafeCargoConfig {
    /// Chooses the configuration file to load: the nearest existing
    /// `safe-cargo.toml` among `candidates`, which are that file in the
    /// current directory and then in each ancestor up to the root, each with
    /// whether it exists; else the global `safe-cargo/config.toml` in the
    /// platform's configuration directory (`~/.config` on Linux), when there
    /// is such a directory and the file exists; else none
    /// (`ConfigNotFound`).  The caller reads and parses the returned path.
    pub fn load(candidates: &Vec<(String, bool)>, global_file: Option<(String, bool)>) -> (r:
        crate::error::Result<String>)
        ensures
            forall|i: int|
                #[trigger] nearest_existing(candidates@, i) ==> (r matches Ok(p) && p@
                    == candidates@[i].0@),
            none_existing(candidates@) ==> match global_file {
                Some((g, true)) => r matches Ok(p) && p@ == g@,
                _ => r matches Err(e) && e@ == crate::error::ErrorView::ConfigNotFound,
            },
    {
        let mut i: usize = 0;
        while i < candidates.len()
            invariant
                i <= candidates@.len(),
                forall|j: int| 0 <= j < i ==> !(#[trigger] candidates@[j]).1,
            decreases candidates.len() - i,
        {
            if candidates[i].1 {
                let found = candidates[i].0.clone();
                proof {
                    assert forall|k: int| #[trigger] nearest_existing(candidates@, k) implies k
                        == i by {
                        if k < i {
                            assert(!candidates@[k].1);
                        } else if k > i {
                            assert(!candidates@[i as int].1);
                        }
                    }
                }
                return Ok(found);
            }
            i = i + 1;
        }
        match global_file {
            Some((g, true)) => Ok(g),
            _ => Err(crate::error::Error::ConfigNotFound),
        }
    }
}

} // verus!
