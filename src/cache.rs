use vstd::prelude::*;
use crate::issue::{Issue, IssueView, issues_view};
use dashmap::DashMap;

verus! {

/// The result of analysing one file under one configuration.
#[derive(Clone, Debug)]
pub struct CacheEntry {
    /// Modification time of the file, in whole seconds since the Unix epoch.
    pub mtime: u64,
    /// Fingerprint of the rule configuration the issues were computed under.
    pub config_hash: u64,
    pub issues: Vec<Issue>,
}

/// The mathematical value of a `CacheEntry`.
pub struct EntryView {
    pub mtime: u64,
    pub config_hash: u64,
    pub issues: Seq<IssueView>,
}

impl View for CacheEntry {
    type V = EntryView;

    open spec fn view(&self) -> EntryView {
        EntryView { mtime: self.mtime, config_hash: self.config_hash, issues: issues_view(self.issues@) }
    }
}

#[verifier::external_type_specification]
#[verifier::external_body]
#[verifier::reject_recursive_types(K)]
#[verifier::reject_recursive_types(V)]
#[verifier::reject_recursive_types(S)]
pub struct ExDashMap<K, V, S>(DashMap<K, V, S>);

/// What a concurrent map of cache entries holds: path to entry.
pub uninterp spec fn dash_contents(m: DashMap<String, CacheEntry>) -> Map<Seq<char>, EntryView>;

/// Relies on `DashMap::new`: the new map is empty.
#[verifier::external_body]
fn dash_new() -> (r: DashMap<String, CacheEntry>)
    ensures
        dash_contents(r) == no_entries(),
{
    DashMap::new()
}

/// Relies on `DashMap::get`: it finds the entry stored under the key, which is
/// copied out of the guard by the derived `Clone`, field by field.
#[verifier::external_body]
fn dash_get(m: &DashMap<String, CacheEntry>, key: &str) -> (r: Option<CacheEntry>)
    ensures
        r is Some == dash_contents(*m).contains_key(key@),
        r matches Some(e) ==> e@ == dash_contents(*m)[key@],
{
    m.get(key).map(|e| e.value().clone())
}

/// Relies on `DashMap::insert`: the key now maps to the value, replacing any
/// earlier one.
#[verifier::external_body]
fn dash_insert(m: &mut DashMap<String, CacheEntry>, key: String, value: CacheEntry)
    ensures
        dash_contents(*final(m)) == dash_contents(*old(m)).insert(key@, value@),
{
    m.insert(key, value);
}

/// Relies on `DashMap::remove`: the key no longer has an entry.
#[verifier::external_body]
fn dash_remove(m: &mut DashMap<String, CacheEntry>, key: &str)
    ensures
        dash_contents(*final(m)) == dash_contents(*old(m)).remove(key@),
{
    m.remove(key);
}

/// Relies on `DashMap::clear`: every entry is removed.
#[verifier::external_body]
fn dash_clear(m: &mut DashMap<String, CacheEntry>)
    ensures
        dash_contents(*final(m)) == no_entries(),
{
    m.clear();
}

/// Relies on `DashMap::len`: the number of keys that have an entry.
#[verifier::external_body]
fn dash_len(m: &DashMap<String, CacheEntry>) -> (r: usize)
    ensures
        r == dash_contents(*m).len(),
{
    m.len()
}

/// Relies on `DashMap::iter`: every entry is visited once, in an order the map
/// chooses; each key and entry is copied out of its guard by `Clone`.
#[verifier::external_body]
fn dash_entries(m: &DashMap<String, CacheEntry>) -> (r: Vec<(String, CacheEntry)>)
    ensures
        snapshot_represents(snapshot_view(r@), dash_contents(*m)),
{
    m.iter().map(|e| (e.key().clone(), e.value().clone())).collect()
}

/// The map with no entries.
pub open spec fn no_entries() -> Map<Seq<char>, EntryView> {
    Map::empty()
}

/// The values of a list of (path, entry) pairs.
pub open spec fn snapshot_view(s: Seq<(String, CacheEntry)>) -> Seq<(Seq<char>, EntryView)> {
    s.map_values(|p: (String, CacheEntry)| (p.0@, p.1@))
}

/// A list of (path, entry) pairs lists exactly the entries of `m`, each path once.
pub open spec fn snapshot_represents(s: Seq<(Seq<char>, EntryView)>, m: Map<Seq<char>, EntryView>) -> bool {
    &&& forall|i: int, j: int| 0 <= i < j < s.len() ==> s[i].0 != s[j].0
    &&& forall|i: int| 0 <= i < s.len() ==> #[trigger] m.contains_key(s[i].0) && m[s[i].0] == s[i].1
    &&& forall|k: Seq<char>| #[trigger] m.contains_key(k) ==> exists|i: int| 0 <= i < s.len() && s[i].0 == k
}


/// The mathematical state of a `FileCache`: its entries and the fingerprint of
/// the configuration it serves.
pub struct CacheModel {
    pub entries: Map<Seq<char>, EntryView>,
    pub config_hash: u64,
}

/// `entries` after the pairs of `s` are admitted one by one, in order, keeping
/// only those computed under `config_hash`; a later pair for a path overwrites
/// an earlier one.
pub open spec fn loaded_entries(
    entries: Map<Seq<char>, EntryView>,
    config_hash: u64,
    s: Seq<(Seq<char>, EntryView)>,
) -> Map<Seq<char>, EntryView>
    decreases s.len(),
{
    if s.len() == 0 {
        entries
    } else {
        let prev = loaded_entries(entries, config_hash, s.drop_last());
        let last = s.last();
        if last.1.config_hash == config_hash {
            prev.insert(last.0, last.1)
        } else {
            prev
        }
    }
}

impl CacheModel {
    /// An empty cache for the given configuration.
    pub open spec fn fresh(config_hash: u64) -> CacheModel {
        CacheModel { entries: Map::empty(), config_hash }
    }

    /// Every entry carries the cache's own fingerprint.
    pub open spec fn wf(self) -> bool {
        forall|k: Seq<char>| #[trigger] self.entries.contains_key(k) ==> self.entries[k].config_hash
            == self.config_hash
    }

    /// What `get` returns: the stored issues when there is an entry for the path
    /// whose modification time equals the file's current one (known) and whose
    /// fingerprint is the cache's own; otherwise nothing.
    pub open spec fn lookup(self, path: Seq<char>, mtime: Option<u64>) -> Option<Seq<IssueView>> {
        match mtime {
            Some(m) => {
                if self.entries.contains_key(path) && self.entries[path].mtime == m
                    && self.entries[path].config_hash == self.config_hash {
                    Some(self.entries[path].issues)
                } else {
                    None
                }
            },
            None => None,
        }
    }

    /// The state after `insert`: with a known modification time the path maps
    /// to a fresh entry under the cache's fingerprint; without one nothing changes.
    pub open spec fn after_insert(self, path: Seq<char>, issues: Seq<IssueView>, mtime: Option<u64>) -> CacheModel {
        match mtime {
            Some(m) => CacheModel {
                entries: self.entries.insert(path, EntryView { mtime: m, config_hash: self.config_hash, issues }),
                config_hash: self.config_hash,
            },
            None => self,
        }
    }

    /// The state after the pairs of a snapshot are admitted.
    pub open spec fn after_load(self, s: Seq<(Seq<char>, EntryView)>) -> CacheModel {
        CacheModel { entries: loaded_entries(self.entries, self.config_hash, s), config_hash: self.config_hash }
    }
}

/// A concurrency-safe store of per-file analysis results, keyed by path and
/// tagged with the file's modification time and the configuration fingerprint.
pub struct FileCache {
    entries: DashMap<String, CacheEntry>,
    config_hash: u64,
    cache_dir: Option<String>,
}

/// The values of an optional list of issues.
pub open spec fn opt_issues_view(r: Option<Vec<Issue>>) -> Option<Seq<IssueView>> {
    match r {
        Some(v) => Some(issues_view(v@)),
        None => None,
    }
}

impl View for FileCache {
    type V = CacheModel;

    closed spec fn view(&self) -> CacheModel {
        CacheModel { entries: dash_contents(self.entries), config_hash: self.config_hash }
    }
}

impl FileCache {
    /// The directory that holds the on-disk snapshots, if persistence is on.
    pub closed spec fn spec_cache_dir(&self) -> Option<String> {
        self.cache_dir
    }

    pub open spec fn wf(&self) -> bool {
        self@.wf()
    }

    /// An empty cache for the default configuration (fingerprint 0).
    pub fn new(cache_dir: Option<String>) -> (r: FileCache)
        ensures
            r@ == CacheModel::fresh(0),
            r.wf(),
            r.spec_cache_dir() == cache_dir,
    {
        FileCache::with_config_hash(0, cache_dir)
    }

    /// An empty cache for the configuration with the given fingerprint.
    pub fn with_config_hash(config_hash: u64, cache_dir: Option<String>) -> (r: FileCache)
        ensures
            r@ == CacheModel::fresh(config_hash),
            r.wf(),
            r.spec_cache_dir() == cache_dir,
    {
        let r = FileCache { entries: dash_new(), config_hash, cache_dir };
        assert(r@.entries =~= Map::empty());
        r
    }

    /// The configuration fingerprint this cache serves.
    pub fn config_hash(&self) -> (r: u64)
        ensures
            r == self@.config_hash,
    {
        self.config_hash
    }

    /// The directory that holds the on-disk snapshots, if persistence is on.
    pub fn cache_dir(&self) -> (r: &Option<String>)
        ensures
            *r == self.spec_cache_dir(),
    {
        &self.cache_dir
    }

    /// Admits the entries of a snapshot that were computed under this cache's
    /// fingerprint, in order, and drops the others.
    pub fn load_snapshot(&mut self, snapshot: Vec<(String, CacheEntry)>)
        requires
            old(self).wf(),
        ensures
            final(self)@ == old(self)@.after_load(snapshot_view(snapshot@)),
            final(self).wf(),
            final(self).spec_cache_dir() == old(self).spec_cache_dir(),
    {
        let ghost all = snapshot_view(snapshot@);
        for item in it: snapshot.into_iter()
            invariant
                it.seq() == snapshot@,
                self.wf(),
                self@ == old(self)@.after_load(all.take(it.index() as int)),
                self.spec_cache_dir() == old(self).spec_cache_dir(),
                all == snapshot_view(snapshot@),
        {
            let ghost done = all.take(it.index() as int);
            let ghost next = all.take(it.index() + 1);
            assert(next.drop_last() =~= done);
            let (path, entry) = item;
            if entry.config_hash == self.config_hash {
                let ghost before = self@;
                dash_insert(&mut self.entries, path, entry);
                assert forall|k: Seq<char>| #[trigger] self@.entries.contains_key(k) implies self@.entries[k].config_hash
                    == self@.config_hash by {
                    if k != path@ {
                        assert(before.entries.contains_key(k));
                    }
                }
            }
            assert(self@.entries =~= loaded_entries(old(self)@.entries, self.config_hash, next));
        }
        assert(all.take(all.len() as int) =~= all);
    }

    /// Every entry of the cache, each path once, in no particular order.
    pub fn snapshot(&self) -> (r: Vec<(String, CacheEntry)>)
        ensures
            snapshot_represents(snapshot_view(r@), self@.entries),
    {
        dash_entries(&self.entries)
    }

    /// The cached issues for `path`, given the file's current modification time
    /// in whole seconds (`None` when it cannot be read).
    pub fn get(&self, path: &str, mtime: Option<u64>) -> (r: Option<Vec<Issue>>)
        ensures
            opt_issues_view(r) == self@.lookup(path@, mtime),
    {
        match mtime {
            Some(current) => match dash_get(&self.entries, path) {
                Some(entry) => {
                    if entry.mtime == current && entry.config_hash == self.config_hash {
                        Some(entry.issues)
                    } else {
                        None
                    }
                },
                None => None,
            },
            None => None,
        }
    }

    /// Stores the issues for `path` under the file's current modification time
    /// and this cache's fingerprint; skipped when the time cannot be read.
    pub fn insert(&mut self, path: String, issues: Vec<Issue>, mtime: Option<u64>)
        requires
            old(self).wf(),
        ensures
            final(self)@ == old(self)@.after_insert(path@, issues_view(issues@), mtime),
            final(self).wf(),
            final(self).spec_cache_dir() == old(self).spec_cache_dir(),
    {
        if let Some(m) = mtime {
            let entry = CacheEntry { mtime: m, config_hash: self.config_hash, issues };
            dash_insert(&mut self.entries, path, entry);
        }
        assert(self@ =~= old(self)@.after_insert(path@, issues_view(issues@), mtime));
    }

    /// Forgets the entry for `path`.
    pub fn invalidate(&mut self, path: &str)
        requires
            old(self).wf(),
        ensures
            final(self)@.entries == old(self)@.entries.remove(path@),
            final(self)@.config_hash == old(self)@.config_hash,
            final(self).wf(),
            final(self).spec_cache_dir() == old(self).spec_cache_dir(),
    {
        let ghost before = self@;
        dash_remove(&mut self.entries, path);
        assert forall|k: Seq<char>| #[trigger] self@.entries.contains_key(k) implies self@.entries[k].config_hash
            == self@.config_hash by {
            assert(before.entries.contains_key(k));
        }
    }

    /// Forgets every entry.
    pub fn clear(&mut self)
        ensures
            final(self)@ == CacheModel::fresh(old(self)@.config_hash),
            final(self).wf(),
            final(self).spec_cache_dir() == old(self).spec_cache_dir(),
    {
        dash_clear(&mut self.entries);
        assert(self@.entries =~= Map::empty());
    }

    /// The number of paths with an entry.
    pub fn len(&self) -> (r: usize)
        ensures
            r == self@.entries.len(),
    {
        dash_len(&self.entries)
    }
}

/// Loading pairs that all carry one fingerprint `h`, each path once, into any
/// map gives each listed path its pair's entry and leaves other paths alone.
proof fn lemma_load_same_config(
    base: Map<Seq<char>, EntryView>,
    h: u64,
    s: Seq<(Seq<char>, EntryView)>,
)
    requires
        forall|i: int| 0 <= i < s.len() ==> (#[trigger] s[i]).1.config_hash == h,
        forall|i: int, j: int| 0 <= i < j < s.len() ==> s[i].0 != s[j].0,
    ensures
        forall|i: int| 0 <= i < s.len() ==> #[trigger] loaded_entries(base, h, s).contains_key(s[i].0)
            && loaded_entries(base, h, s)[s[i].0] == s[i].1,
        forall|k: Seq<char>| #[trigger] loaded_entries(base, h, s).contains_key(k) ==> base.contains_key(k)
            || exists|i: int| 0 <= i < s.len() && s[i].0 == k,
        forall|k: Seq<char>| base.contains_key(k) ==> #[trigger] loaded_entries(base, h, s).contains_key(k),
    decreases s.len(),
{
    if s.len() > 0 {
        let p = s.drop_last();
        lemma_load_same_config(base, h, p);
        let prev = loaded_entries(base, h, p);
        let cur = loaded_entries(base, h, s);
        assert(cur == prev.insert(s.last().0, s.last().1));
        assert forall|i: int| 0 <= i < s.len() implies #[trigger] cur.contains_key(s[i].0) && cur[s[i].0] == s[i].1 by {
            if i < s.len() - 1 {
                assert(p[i] == s[i]);
            }
        }
        assert forall|k: Seq<char>| #[trigger] cur.contains_key(k) implies base.contains_key(k)
            || exists|i: int| 0 <= i < s.len() && s[i].0 == k by {
            if k != s.last().0 {
                assert(prev.contains_key(k));
                if !base.contains_key(k) {
                    let i = choose|i: int| 0 <= i < p.len() && p[i].0 == k;
                    assert(s[i] == p[i]);
                }
            } else {
                assert(s[s.len() - 1].0 == k);
            }
        }
    }
}

/// Pairs computed under another fingerprint leave a map unchanged when loaded.
proof fn lemma_load_other_config(
    base: Map<Seq<char>, EntryView>,
    h: u64,
    s: Seq<(Seq<char>, EntryView)>,
)
    requires
        forall|i: int| 0 <= i < s.len() ==> (#[trigger] s[i]).1.config_hash != h,
    ensures
        loaded_entries(base, h, s) == base,
    decreases s.len(),
{
    if s.len() > 0 {
        let p = s.drop_last();
        assert forall|i: int| 0 <= i < p.len() implies (#[trigger] p[i]).1.config_hash != h by {
            assert(p[i] == s[i]);
        }
        lemma_load_other_config(base, h, p);
        assert(s.last() == s[s.len() - 1]);
    }
}

/// Soundness: a result computed under one configuration is never served by a
/// cache for another. Whatever a cache for `c1` holds, loading its snapshot
/// into a cache for a different fingerprint changes nothing there, and a cache
/// only ever serves entries that carry its own fingerprint.
pub proof fn lemma_other_config_never_served(
    c1: CacheModel,
    c2: CacheModel,
    s: Seq<(Seq<char>, EntryView)>,
    path: Seq<char>,
    mtime: Option<u64>,
)
    requires
        c1.wf(),
        c1.config_hash != c2.config_hash,
        snapshot_represents(s, c1.entries),
    ensures
        c2.after_load(s) == c2,
        c2.lookup(path, mtime) is Some ==> c2.entries[path].config_hash == c2.config_hash,
{
    assert forall|i: int| 0 <= i < s.len() implies (#[trigger] s[i]).1.config_hash != c2.config_hash by {
        assert(c1.entries.contains_key(s[i].0));
    }
    lemma_load_other_config(c2.entries, c2.config_hash, s);
}

/// Freshness: once a file's modification time differs from the one it was
/// stored under, `get` misses until the file is stored again.
pub proof fn lemma_changed_file_misses(
    c: CacheModel,
    path: Seq<char>,
    issues: Seq<IssueView>,
    stored: u64,
    current: u64,
)
    requires
        stored != current,
    ensures
        c.after_insert(path, issues, Some(stored)).lookup(path, Some(current)) is None,
{
}

/// Idempotence: storing the same issues for a path twice, at one modification
/// time, leaves the cache as storing them once; `get` returns them and the
/// number of entries does not grow.
pub proof fn lemma_insert_idempotent(c: CacheModel, path: Seq<char>, issues: Seq<IssueView>, mtime: u64)
    ensures
        c.after_insert(path, issues, Some(mtime)).after_insert(path, issues, Some(mtime)) == c.after_insert(
            path,
            issues,
            Some(mtime),
        ),
        c.after_insert(path, issues, Some(mtime)).lookup(path, Some(mtime)) == Some(issues),
        c.after_insert(path, issues, Some(mtime)).after_insert(path, issues, Some(mtime)).lookup(
            path,
            Some(mtime),
        ) == Some(issues),
        c.after_insert(path, issues, Some(mtime)).after_insert(path, issues, Some(mtime)).entries.len()
            == c.after_insert(path, issues, Some(mtime)).entries.len(),
{
    let once = c.after_insert(path, issues, Some(mtime));
    assert(once.entries.insert(path, once.entries[path]) =~= once.entries);
}

/// Snapshot round trip: loading a cache's snapshot into a fresh cache for the
/// same fingerprint reproduces its entries, so every `get` answers as before.
pub proof fn lemma_snapshot_round_trip(
    c: CacheModel,
    s: Seq<(Seq<char>, EntryView)>,
    path: Seq<char>,
    mtime: Option<u64>,
)
    requires
        c.wf(),
        snapshot_represents(s, c.entries),
    ensures
        CacheModel::fresh(c.config_hash).after_load(s) == c,
        CacheModel::fresh(c.config_hash).after_load(s).lookup(path, mtime) == c.lookup(path, mtime),
{
    let h = c.config_hash;
    assert forall|i: int| 0 <= i < s.len() implies (#[trigger] s[i]).1.config_hash == h by {
        assert(c.entries.contains_key(s[i].0));
    }
    let empty = Map::<Seq<char>, EntryView>::empty();
    lemma_load_same_config(empty, h, s);
    let l = loaded_entries(empty, h, s);
    assert forall|k: Seq<char>| #[trigger] l.contains_key(k) implies c.entries.contains_key(k) by {
        let i = choose|i: int| 0 <= i < s.len() && s[i].0 == k;
        assert(c.entries.contains_key(s[i].0));
    }
    assert forall|k: Seq<char>| #[trigger] c.entries.contains_key(k) implies l.contains_key(k) && l[k]
        == c.entries[k] by {
        let i = choose|i: int| 0 <= i < s.len() && s[i].0 == k;
        assert(l.contains_key(s[i].0));
    }
    assert(l =~= c.entries);
}

} // verus!
