//! An identity-aware cache of rendered per-commit output.
//!
//! Invoking the version-control tool for a commit's details is expensive, a
//! commit's identity is unstable (a logical change is re-rendered as a new
//! commit across rebases, and several visible commits may share one change
//! identity when the change has diverged), and the rendered output can be
//! large. [`CommitShowCache`] therefore keeps one entry per
//! [`CommitShowKey`], tracks which change identities are currently visible,
//! and keeps at most one no-longer-active entry per change as a stale
//! fallback until fresh content for that change arrives.
//!
//! Eviction is driven solely by change-identity transitions, not by
//! recency or size: a stale entry is discarded exactly when a fresh entry
//! for the same change is inserted.

use vstd::prelude::*;
use vstd::utf8::encode_utf8;

use crate::env::DiffFormat;
use crate::env::FormatView;
use crate::ids::ChangeId;
use crate::ids::Head;
use crate::ids::HeadView;
use crate::large_string::LargeString;

verus! {

/// Mathematical value of a [`CommitShowKey`].
#[verifier::ext_equal]
pub ghost struct KeyView {
    pub commit: Seq<u8>,
    pub change: Seq<u8>,
    pub format: FormatView,
    pub width: int,
}

/// The output of the version-control tool's show operation depends on all
/// three of these values: the shown commit, the format, and, for the
/// tool-delegated format only, the render width.
#[derive(Debug)]
pub struct CommitShowKey {
    /// Commit identity of the shown change.
    id: Head,
    /// Formatting used to render the change.
    format: DiffFormat,
    /// Render width. Zero for every format except the tool-delegated one,
    /// whose output depends on the column width handed to the tool.
    width: usize,
}

impl View for CommitShowKey {
    type V = KeyView;

    closed spec fn view(&self) -> KeyView {
        KeyView {
            commit: self.id@.commit,
            change: self.id@.change,
            format: self.format@,
            width: self.width as int,
        }
    }
}

/// The key [`CommitShowKey::new`] builds: the width is kept only for the
/// tool-delegated format and normalized to zero for every other format, so
/// two otherwise-identical requests differing only in width collapse to
/// one entry.
pub open spec fn key_new_spec(id: HeadView, format: FormatView, width: int) -> KeyView {
    KeyView {
        commit: id.commit,
        change: id.change,
        format: format,
        width: if format is DiffTool {
            width
        } else {
            0
        },
    }
}

impl CommitShowKey {
    /// Create a new key, normalizing the width of every format that does
    /// not delegate to an external tool.
    pub fn new(id: Head, format: DiffFormat, width: usize) -> (r: Self)
        ensures
            r@ == key_new_spec(id@, format@, width as int),
    {
        let width: usize = if let DiffFormat::DiffTool(_) = format {
            width
        } else {
            0
        };
        CommitShowKey { id, format, width }
    }
}

impl Clone for CommitShowKey {
    fn clone(&self) -> (r: Self)
        ensures
            r@ == self@,
    {
        CommitShowKey { id: self.id.clone(), format: self.format.clone(), width: self.width }
    }
}

impl PartialEq for CommitShowKey {
    fn eq(&self, other: &Self) -> bool {
        self.id == other.id && self.format == other.format && self.width == other.width
    }
}

impl vstd::std_specs::cmp::PartialEqSpecImpl for CommitShowKey {
    open spec fn obeys_eq_spec() -> bool {
        true
    }

    open spec fn eq_spec(&self, other: &Self) -> bool {
        self@ == other@
    }
}

/// Mathematical value of a [`CommitShowValue`]: its originating key and
/// the rendered bytes.
#[verifier::ext_equal]
pub ghost struct ValueView {
    pub key: KeyView,
    pub content: Seq<u8>,
}

/// One cached rendering: the originating key together with the output in a
/// form that is fast to render a window of.
#[derive(Debug)]
pub struct CommitShowValue {
    key: CommitShowKey,
    jj_output: LargeString,
}

impl View for CommitShowValue {
    type V = ValueView;

    closed spec fn view(&self) -> ValueView {
        ValueView { key: self.key@, content: self.jj_output@ }
    }
}

impl CommitShowValue {
    /// Index the rendered output once, and store both key and output.
    pub fn new(key: CommitShowKey, value: String) -> (r: Self)
        ensures
            r@.key == key@,
            r@.content == encode_utf8(value@),
    {
        CommitShowValue { key, jj_output: LargeString::new(value) }
    }

    /// The rendered output.
    pub fn value(&self) -> (r: &LargeString)
        ensures
            r@ == self@.content,
    {
        &self.jj_output
    }
}

/// Mathematical state of a [`CommitShowCache`]:
/// - `active` maps each visible change identity to the set of keys that
///   are currently visible for it;
/// - `stale` maps a change identity to at most one key whose cached
///   content is kept as a fallback although the key is no longer visible;
/// - `store` holds the cached value of every stored key.
#[verifier::ext_equal]
pub ghost struct CacheModel {
    pub active: Map<Seq<u8>, Set<KeyView>>,
    pub stale: Map<Seq<u8>, KeyView>,
    pub store: Map<KeyView, ValueView>,
}

/// Whether some element of `s` has key view `k`.
spec fn docs_has_key(s: Seq<CommitShowValue>, k: KeyView) -> bool {
    exists|i: int| 0 <= i < s.len() && s[i]@.key == k
}

/// The stored entries, as a map from key to value. Well-defined when the
/// keys of `s` are pairwise distinct.
spec fn store_map(s: Seq<CommitShowValue>) -> Map<KeyView, ValueView> {
    Map::new(
        |k: KeyView| docs_has_key(s, k),
        |k: KeyView| (s[choose|i: int| 0 <= i < s.len() && s[i]@.key == k]@),
    )
}

spec fn store_distinct(s: Seq<CommitShowValue>) -> bool {
    forall|i: int, j: int| 0 <= i < j < s.len() ==> s[i]@.key != s[j]@.key
}

/// The stale entries, as a map from change identity to the kept key.
/// Well-defined when the changes of `s` are pairwise distinct.
spec fn stale_map(s: Seq<CommitShowKey>) -> Map<Seq<u8>, KeyView> {
    Map::new(
        |c: Seq<u8>| exists|i: int| 0 <= i < s.len() && s[i]@.change == c,
        |c: Seq<u8>| (s[choose|i: int| 0 <= i < s.len() && s[i]@.change == c]@),
    )
}

spec fn stale_distinct(s: Seq<CommitShowKey>) -> bool {
    forall|i: int, j: int| 0 <= i < j < s.len() ==> s[i]@.change != s[j]@.change
}

/// The active entries, as a map from change identity to the set of visible
/// key views of that change.
spec fn active_map(s: Seq<CommitShowKey>) -> Map<Seq<u8>, Set<KeyView>> {
    Map::new(
        |c: Seq<u8>| exists|i: int| 0 <= i < s.len() && s[i]@.change == c,
        |c: Seq<u8>| Set::new(|k: KeyView| k.change == c && exists|i: int| 0 <= i < s.len() && s[i]@ == k),
    )
}

proof fn lemma_store_map_value(s: Seq<CommitShowValue>, i: int)
    requires
        store_distinct(s),
        0 <= i < s.len(),
    ensures
        store_map(s).contains_key(s[i]@.key),
        store_map(s)[s[i]@.key] == s[i]@,
{
    let k = s[i]@.key;
    assert(docs_has_key(s, k));
    let j = choose|j: int| 0 <= j < s.len() && s[j]@.key == k;
    assert(j == i);
}

proof fn lemma_stale_map_value(s: Seq<CommitShowKey>, i: int)
    requires
        stale_distinct(s),
        0 <= i < s.len(),
    ensures
        stale_map(s).contains_key(s[i]@.change),
        stale_map(s)[s[i]@.change] == s[i]@,
{
    let c = s[i]@.change;
    let j = choose|j: int| 0 <= j < s.len() && s[j]@.change == c;
    assert(j == i);
}

proof fn lemma_store_map_remove(s: Seq<CommitShowValue>, i: int)
    requires
        store_distinct(s),
        0 <= i < s.len(),
    ensures
        store_distinct(s.remove(i)),
        store_map(s.remove(i)) == store_map(s).remove(s[i]@.key),
{
    let t = s.remove(i);
    s.remove_ensures(i);
    assert forall|a: int, b: int| 0 <= a < b < t.len() implies t[a]@.key != t[b]@.key by {
        let a2: int = if a < i {
            a
        } else {
            a + 1
        };
        let b2: int = if b < i {
            b
        } else {
            b + 1
        };
        assert(t[a] == s[a2]);
        assert(t[b] == s[b2]);
    }
    assert forall|k: KeyView| #[trigger] docs_has_key(t, k) implies docs_has_key(s, k) && k != s[i]@.key
        && store_map(t)[k] == store_map(s)[k] by {
        let j = choose|j: int| 0 <= j < t.len() && t[j]@.key == k;
        let j2: int = if j < i {
            j
        } else {
            j + 1
        };
        assert(t[j] == s[j2]);
        lemma_store_map_value(t, j);
        lemma_store_map_value(s, j2);
    }
    assert forall|k: KeyView| docs_has_key(s, k) && k != s[i]@.key implies #[trigger] docs_has_key(
        t,
        k,
    ) by {
        let j = choose|j: int| 0 <= j < s.len() && s[j]@.key == k;
        let j2: int = if j < i {
            j
        } else {
            j - 1
        };
        assert(t[j2] == s[j]);
    }
    assert(store_map(t) =~= store_map(s).remove(s[i]@.key));
}

proof fn lemma_store_map_push(s: Seq<CommitShowValue>, v: CommitShowValue)
    requires
        store_distinct(s),
        !docs_has_key(s, v@.key),
    ensures
        store_distinct(s.push(v)),
        store_map(s.push(v)) == store_map(s).insert(v@.key, v@),
{
    let t = s.push(v);
    assert forall|a: int, b: int| 0 <= a < b < t.len() implies t[a]@.key != t[b]@.key by {
        assert(t[a] == s[a]);
        if b == s.len() {
            assert(t[b] == v);
            if s[a]@.key == v@.key {
                assert(docs_has_key(s, v@.key));
            }
        } else {
            assert(t[b] == s[b]);
        }
    }
    assert(t[s.len() as int] == v);
    lemma_store_map_value(t, s.len() as int);
    assert forall|k: KeyView| #[trigger] docs_has_key(t, k) && k != v@.key implies docs_has_key(
        s,
        k,
    ) && store_map(t)[k] == store_map(s)[k] by {
        let j = choose|j: int| 0 <= j < t.len() && t[j]@.key == k;
        assert(j < s.len());
        assert(t[j] == s[j]);
        lemma_store_map_value(t, j);
        lemma_store_map_value(s, j);
    }
    assert forall|k: KeyView| docs_has_key(s, k) implies #[trigger] docs_has_key(t, k) by {
        let j = choose|j: int| 0 <= j < s.len() && s[j]@.key == k;
        assert(t[j] == s[j]);
    }
    assert(store_map(t) =~= store_map(s).insert(v@.key, v@));
}

proof fn lemma_stale_map_remove(s: Seq<CommitShowKey>, i: int)
    requires
        stale_distinct(s),
        0 <= i < s.len(),
    ensures
        stale_distinct(s.remove(i)),
        stale_map(s.remove(i)) == stale_map(s).remove(s[i]@.change),
{
    let t = s.remove(i);
    s.remove_ensures(i);
    assert forall|a: int, b: int| 0 <= a < b < t.len() implies t[a]@.change != t[b]@.change by {
        let a2: int = if a < i {
            a
        } else {
            a + 1
        };
        let b2: int = if b < i {
            b
        } else {
            b + 1
        };
        assert(t[a] == s[a2]);
        assert(t[b] == s[b2]);
    }
    assert forall|c: Seq<u8>| #[trigger] stale_map(t).contains_key(c) implies stale_map(
        s,
    ).contains_key(c) && c != s[i]@.change && stale_map(t)[c] == stale_map(s)[c] by {
        let j = choose|j: int| 0 <= j < t.len() && t[j]@.change == c;
        let j2: int = if j < i {
            j
        } else {
            j + 1
        };
        assert(t[j] == s[j2]);
        lemma_stale_map_value(t, j);
        lemma_stale_map_value(s, j2);
    }
    assert forall|c: Seq<u8>| stale_map(s).contains_key(c) && c != s[i]@.change
        implies #[trigger] stale_map(t).contains_key(c) by {
        let j = choose|j: int| 0 <= j < s.len() && s[j]@.change == c;
        let j2: int = if j < i {
            j
        } else {
            j - 1
        };
        assert(t[j2] == s[j]);
    }
    assert(stale_map(t) =~= stale_map(s).remove(s[i]@.change));
}

/// A cache dedicated to the rendered show output of every entry of the
/// log. Entries are keyed by commit identity. The caller declares which
/// commits are currently visible; a stored entry that is no longer visible
/// serves as the fallback for requests of the same change identity until a
/// fresh entry for that change is inserted, at which point it is
/// discarded.
#[derive(Debug)]
pub struct CommitShowCache {
    /// The currently visible keys. Several may share one change identity
    /// when a change is divergent.
    active_commits: Vec<CommitShowKey>,
    /// Stored keys that are no longer visible, at most one per change
    /// identity; each is discarded once a fresh entry with the same change
    /// identity is inserted. Divergent stale variants beyond the kept one
    /// are not tracked.
    old_commits: Vec<CommitShowKey>,
    /// The cached show output.
    commit_document: Vec<CommitShowValue>,
}

impl View for CommitShowCache {
    type V = CacheModel;

    closed spec fn view(&self) -> CacheModel {
        CacheModel {
            active: active_map(self.active_commits@),
            stale: stale_map(self.old_commits@),
            store: store_map(self.commit_document@),
        }
    }
}

/// What [`CommitShowCache::get`] finds for `k` in model `m`: the exact
/// entry when one is stored; otherwise the entry under the stale key of
/// `k`'s change, when there is one; otherwise nothing. Not-found is a
/// valid, non-error result.
pub open spec fn get_spec(m: CacheModel, k: KeyView) -> Option<ValueView> {
    if m.store.contains_key(k) {
        Some(m.store[k])
    } else if m.stale.contains_key(k.change) && m.store.contains_key(m.stale[k.change]) {
        Some(m.store[m.stale[k.change]])
    } else {
        None
    }
}

/// How [`CommitShowCache::insert_document`] changes model `pre` when value
/// `v` is inserted: the stale entry of `v`'s change, if any, is removed
/// from the store together with its stale mapping, and `v` is stored under
/// its own key. The active entries do not change.
pub open spec fn insert_post(pre: CacheModel, v: ValueView, post: CacheModel) -> bool {
    &&& post.active == pre.active
    &&& if pre.stale.contains_key(v.key.change) {
        &&& post.stale == pre.stale.remove(v.key.change)
        &&& post.store == pre.store.remove(pre.stale[v.key.change]).insert(v.key, v)
    } else {
        &&& post.stale == pre.stale
        &&& post.store == pre.store.insert(v.key, v)
    }
}

/// The key that [`CommitShowCache::set_active`] derives for head `h` from
/// the template key: the head replaces the template's identity, the format
/// and width are kept.
pub open spec fn derived_key(template: KeyView, h: HeadView) -> KeyView {
    KeyView { commit: h.commit, change: h.change, format: template.format, width: template.width }
}

pub open spec fn heads_view(hs: Seq<Head>) -> Seq<HeadView> {
    hs.map_values(|h: Head| h@)
}

/// Whether `k` is one of the keys derived from the visible heads, that is,
/// whether `k` is currently visible.
pub open spec fn covered_by_heads(heads: Seq<HeadView>, template: KeyView, k: KeyView) -> bool {
    exists|i: int| 0 <= i < heads.len() && k == derived_key(template, heads[i])
}

/// The active entries [`CommitShowCache::set_active`] rebuilds from the
/// visible heads: each visible change maps to the set of keys derived for
/// its visible heads.
pub open spec fn active_rebuilt(heads: Seq<HeadView>, template: KeyView) -> Map<
    Seq<u8>,
    Set<KeyView>,
> {
    Map::new(
        |c: Seq<u8>| exists|i: int| 0 <= i < heads.len() && heads[i].change == c,
        |c: Seq<u8>| Set::new(|k: KeyView| k.change == c && covered_by_heads(heads, template, k)),
    )
}

/// How [`CommitShowCache::set_active`] changes model `pre`: active and
/// stale are rebuilt from scratch, the store is untouched. Every stored
/// key that is not visible afterwards has its change recorded as stale,
/// with one such key (arbitrarily chosen among divergent variants) kept
/// per change; a visible key is never recorded as stale.
pub open spec fn set_active_post(
    pre: CacheModel,
    heads: Seq<HeadView>,
    template: KeyView,
    post: CacheModel,
) -> bool {
    &&& post.store == pre.store
    &&& post.active == active_rebuilt(heads, template)
    &&& forall|c: Seq<u8>|
        #[trigger] post.stale.contains_key(c) <==> exists|k: KeyView|
            #[trigger] pre.store.contains_key(k) && k.change == c && !covered_by_heads(
                heads,
                template,
                k,
            )
    &&& forall|c: Seq<u8>| #[trigger]
        post.stale.contains_key(c) ==> pre.store.contains_key(post.stale[c])
            && post.stale[c].change == c && !covered_by_heads(heads, template, post.stale[c])
}

/// Find the index of the entry of `s` whose key equals `key`.
fn find_doc(s: &Vec<CommitShowValue>, key: &CommitShowKey) -> (r: Option<usize>)
    ensures
        match r {
            Some(i) => i < s@.len() && s@[i as int]@.key == key@,
            None => !docs_has_key(s@, key@),
        },
{
    let mut i: usize = 0;
    while i < s.len()
        invariant
            0 <= i <= s@.len(),
            forall|j: int| 0 <= j < i ==> s@[j]@.key != key@,
        decreases s@.len() - i,
    {
        if s[i].key == *key {
            return Some(i);
        }
        i += 1;
    }
    None
}

/// Find the index of the entry of `s` whose key view equals `key`'s.
fn find_key(s: &Vec<CommitShowKey>, key: &CommitShowKey) -> (r: Option<usize>)
    ensures
        match r {
            Some(i) => i < s@.len() && s@[i as int]@ == key@,
            None => forall|j: int| 0 <= j < s@.len() ==> s@[j]@ != key@,
        },
{
    let mut i: usize = 0;
    while i < s.len()
        invariant
            0 <= i <= s@.len(),
            forall|j: int| 0 <= j < i ==> s@[j]@ != key@,
        decreases s@.len() - i,
    {
        if s[i] == *key {
            return Some(i);
        }
        i += 1;
    }
    None
}

/// Find the index of the entry of `s` whose change identity equals
/// `change`.
fn find_change(s: &Vec<CommitShowKey>, change: &ChangeId) -> (r: Option<usize>)
    ensures
        match r {
            Some(i) => i < s@.len() && s@[i as int]@.change == change@,
            None => forall|j: int| 0 <= j < s@.len() ==> s@[j]@.change != change@,
        },
{
    let mut i: usize = 0;
    while i < s.len()
        invariant
            0 <= i <= s@.len(),
            forall|j: int| 0 <= j < i ==> s@[j]@.change != change@,
        decreases s@.len() - i,
    {
        if s[i].id.change_id == *change {
            return Some(i);
        }
        i += 1;
    }
    None
}

impl CommitShowCache {
    /// Well-formedness: stored keys are pairwise distinct, stale entries
    /// track pairwise distinct changes, every stale key is stored, and no
    /// stale key is currently visible.
    pub closed spec fn inv(&self) -> bool {
        &&& store_distinct(self.commit_document@)
        &&& stale_distinct(self.old_commits@)
        &&& forall|i: int|
            0 <= i < self.old_commits@.len() ==> docs_has_key(
                self.commit_document@,
                #[trigger] self.old_commits@[i]@,
            )
        &&& forall|i: int, j: int|
            0 <= i < self.old_commits@.len() && 0 <= j < self.active_commits@.len()
                ==> self.old_commits@[i]@ != self.active_commits@[j]@
    }

    /// Create an empty cache.
    pub fn new() -> (r: Self)
        ensures
            r.inv(),
            r@.active == Map::<Seq<u8>, Set<KeyView>>::empty(),
            r@.stale == Map::<Seq<u8>, KeyView>::empty(),
            r@.store == Map::<KeyView, ValueView>::empty(),
    {
        let r = CommitShowCache {
            active_commits: Vec::new(),
            old_commits: Vec::new(),
            commit_document: Vec::new(),
        };
        proof {
            assert(r@.active =~= Map::<Seq<u8>, Set<KeyView>>::empty());
            assert(r@.stale =~= Map::<Seq<u8>, KeyView>::empty());
            assert(r@.store =~= Map::<KeyView, ValueView>::empty());
        }
        r
    }

    /// Return true when the key itself has a stored entry.
    pub fn has_exact_match(&self, key: &CommitShowKey) -> (r: bool)
        requires
            self.inv(),
        ensures
            r == self@.store.contains_key(key@),
    {
        match find_doc(&self.commit_document, key) {
            Some(_) => true,
            None => false,
        }
    }

    /// Search for the best match of the provided key: the exact entry when
    /// one is stored, else the stale fallback of the key's change, else
    /// nothing.
    pub fn get(&self, key: &CommitShowKey) -> (r: Option<&CommitShowValue>)
        requires
            self.inv(),
        ensures
            match r {
                Some(v) => get_spec(self@, key@) == Some(v@),
                None => get_spec(self@, key@) is None,
            },
    {
        if let Some(i) = find_doc(&self.commit_document, key) {
            proof {
                lemma_store_map_value(self.commit_document@, i as int);
            }
            return Some(&self.commit_document[i]);
        }
        if let Some(j) = find_change(&self.old_commits, &key.id.change_id) {
            proof {
                lemma_stale_map_value(self.old_commits@, j as int);
            }
            let old_key = &self.old_commits[j];
            if let Some(i) = find_doc(&self.commit_document, old_key) {
                proof {
                    lemma_store_map_value(self.commit_document@, i as int);
                }
                return Some(&self.commit_document[i]);
            }
            return None;
        }
        None
    }

    /// Move the value into the cache as the entry of its own key. The
    /// stale entry of the value's change identity, if any, is discarded:
    /// stale content is dropped exactly when fresh content for the same
    /// change arrives.
    pub fn insert_document(&mut self, value: CommitShowValue)
        requires
            old(self).inv(),
        ensures
            final(self).inv(),
            insert_post(old(self)@, value@, final(self)@),
    {
        let ghost pre = old(self)@;
        let ghost change: Seq<u8> = value.key@.change;
        if let Some(j) = find_change(&self.old_commits, &value.key.id.change_id) {
            let ghost old_stale = self.old_commits@;
            proof {
                lemma_stale_map_value(old_stale, j as int);
            }
            let old_key = self.old_commits.remove(j);
            proof {
                lemma_stale_map_remove(old_stale, j as int);
                assert(pre.stale.contains_key(change));
                assert(pre.stale[change] == old_key@);
                assert(stale_map(self.old_commits@) == pre.stale.remove(change));
            }
            let ghost docs0 = self.commit_document@;
            if let Some(i) = find_doc(&self.commit_document, &old_key) {
                let _evicted = self.commit_document.remove(i);
                proof {
                    lemma_store_map_value(docs0, i as int);
                    lemma_store_map_remove(docs0, i as int);
                    assert(store_map(self.commit_document@) == pre.store.remove(old_key@));
                }
            } else {
                proof {
                    assert(docs_has_key(docs0, old_stale[j as int]@));
                    assert(false);
                }
            }
        }
        let ghost stale1 = stale_map(self.old_commits@);
        let ghost store1 = store_map(self.commit_document@);
        let ghost docs1 = self.commit_document@;
        if let Some(i) = find_doc(&self.commit_document, &value.key) {
            let _replaced = self.commit_document.remove(i);
            proof {
                lemma_store_map_value(docs1, i as int);
                lemma_store_map_remove(docs1, i as int);
            }
        }
        proof {
            lemma_store_map_push(self.commit_document@, value);
        }
        self.commit_document.push(value);
        proof {
            assert(store_map(self.commit_document@) =~= store1.insert(value@.key, value@));
            // The stale entries that remain have other changes than the
            // inserted value and the evicted key, so the keys they point at
            // are still stored.
            assert forall|i: int| 0 <= i < self.old_commits@.len() implies docs_has_key(
                self.commit_document@,
                #[trigger] self.old_commits@[i]@,
            ) by {
                let k = self.old_commits@[i]@;
                assert(store1.contains_key(k) ==> store_map(
                    self.commit_document@,
                ).contains_key(k));
            }
            assert(final(self)@.active =~= pre.active);
        }
    }

    /// Declare which commits are visible: active and stale are rebuilt
    /// from scratch, the store is untouched. For each visible head a key
    /// is derived from the template `key`, with the head substituted for
    /// the template's identity. Every stored key that is not visible
    /// afterwards is recorded as its change's stale entry (one per change
    /// survives; visible keys are never recorded), to be served for
    /// requests of the same change until fresh content arrives.
    pub fn set_active(&mut self, active_heads: Vec<Head>, key: &CommitShowKey)
        requires
            old(self).inv(),
        ensures
            final(self).inv(),
            set_active_post(old(self)@, heads_view(active_heads@), key@, final(self)@),
    {
        let ghost pre = old(self)@;
        let ghost heads = heads_view(active_heads@);
        let ghost template = key@;
        // Rebuild the visible keys from the heads.
        let mut new_active: Vec<CommitShowKey> = Vec::new();
        let mut i: usize = 0;
        while i < active_heads.len()
            invariant
                0 <= i <= active_heads@.len(),
                heads == heads_view(active_heads@),
                template == key@,
                new_active@.len() == i,
                forall|j: int|
                    0 <= j < i ==> #[trigger] new_active@[j]@ == derived_key(template, heads[j]),
            decreases active_heads@.len() - i,
        {
            let mut derived = key.clone();
            derived.id = active_heads[i].clone();
            proof {
                assert(heads[i as int] == active_heads@[i as int]@);
                assert(derived@ =~= derived_key(template, heads[i as int]));
            }
            new_active.push(derived);
            i += 1;
        }
        self.active_commits = new_active;
        self.old_commits = Vec::new();
        let ghost av = self.active_commits@;
        let ghost docs0 = self.commit_document@;
        // Record, per change, one stored key that is not visible.
        let mut new_old: Vec<CommitShowKey> = Vec::new();
        let mut i: usize = 0;
        while i < self.commit_document.len()
            invariant
                0 <= i <= docs0.len(),
                self.commit_document@ == docs0,
                self.active_commits@ == av,
                template == key@,
                store_distinct(docs0),
                av.len() == heads.len(),
                forall|j: int| 0 <= j < av.len() ==> #[trigger] av[j]@ == derived_key(
                    template,
                    heads[j],
                ),
                stale_distinct(new_old@),
                forall|j: int|
                    0 <= j < new_old@.len() ==> docs_has_key(docs0, #[trigger] new_old@[j]@)
                        && !covered_by_heads(heads, template, new_old@[j]@),
                forall|d: int|
                    0 <= d < i && !covered_by_heads(heads, template, #[trigger] docs0[d]@.key)
                        ==> exists|j: int|
                        0 <= j < new_old@.len() && #[trigger] new_old@[j]@.change
                            == docs0[d]@.key.change,
            decreases docs0.len() - i,
        {
            let doc_key = &self.commit_document[i].key;
            let covered = match find_key(&self.active_commits, doc_key) {
                Some(_) => true,
                None => false,
            };
            proof {
                if !covered && covered_by_heads(heads, template, doc_key@) {
                    let w = choose|w: int|
                        0 <= w < heads.len() && doc_key@ == derived_key(template, heads[w]);
                    assert(av[w]@ == doc_key@);
                }
                if covered {
                    assert(covered_by_heads(heads, template, doc_key@));
                }
            }
            if !covered {
                let ghost before = new_old@;
                match find_change(&new_old, &doc_key.id.change_id) {
                    Some(j) => {
                        let _superseded = new_old.remove(j);
                        proof {
                            before.remove_ensures(j as int);
                            assert forall|a: int| 0 <= a < new_old@.len()
                                implies #[trigger] new_old@[a]@.change != doc_key@.change by {
                                let a2: int = if a < j {
                                    a
                                } else {
                                    a + 1
                                };
                                assert(new_old@[a] == before[a2]);
                            }
                        }
                        new_old.push(doc_key.clone());
                    },
                    None => {
                        new_old.push(doc_key.clone());
                    },
                }
                proof {
                    assert(new_old@.last()@ == doc_key@);
                    assert(docs_has_key(docs0, doc_key@));
                    // Every change recorded before still has a
                    // representative: only an entry of this change was
                    // superseded, and its change is re-recorded last.
                    assert forall|d: int|
                        0 <= d < i + 1 && !covered_by_heads(
                            heads,
                            template,
                            #[trigger] docs0[d]@.key,
                        ) implies exists|j: int|
                        0 <= j < new_old@.len() && #[trigger] new_old@[j]@.change
                            == docs0[d]@.key.change by {
                        let c = docs0[d]@.key.change;
                        if c == doc_key@.change {
                            assert(new_old@[new_old@.len() - 1]@.change == c);
                        } else if d < i {
                            let j0 = choose|j0: int|
                                0 <= j0 < before.len() && #[trigger] before[j0]@.change == c;
                            if new_old@.len() == before.len() + 1 {
                                assert(new_old@[j0]@.change == c);
                            } else {
                                // One entry was removed and one pushed; the
                                // removed entry had this head's change, not c.
                                let jr = choose|jr: int|
                                    0 <= jr < before.len() && #[trigger] before[jr]@.change
                                        == doc_key@.change;
                                let j1: int = if j0 < jr {
                                    j0
                                } else {
                                    j0 - 1
                                };
                                assert(new_old@[j1]@.change == c);
                            }
                        }
                    }
                }
            }
            i += 1;
        }
        self.old_commits = new_old;
        proof {
            let post = final(self)@;
            // The visible keys and the derived keys coincide.
            assert forall|k: KeyView| covered_by_heads(heads, template, k) implies exists|j: int|
                0 <= j < av.len() && #[trigger] av[j]@ == k by {
                let w = choose|w: int|
                    0 <= w < heads.len() && k == derived_key(template, heads[w]);
                assert(av[w]@ == k);
            }
            // Active entries equal the rebuilt map.
            let m1 = active_map(av);
            let m2 = active_rebuilt(heads, template);
            assert forall|c: Seq<u8>| #[trigger] m1.contains_key(c) implies m2.contains_key(
                c,
            ) by {
                let j = choose|j: int| 0 <= j < av.len() && #[trigger] av[j]@.change == c;
                assert(heads[j].change == c);
            }
            assert forall|c: Seq<u8>| #[trigger] m2.contains_key(c) implies m1.contains_key(
                c,
            ) by {
                let w = choose|w: int| 0 <= w < heads.len() && #[trigger] heads[w].change == c;
                assert(av[w]@.change == c);
            }
            assert forall|c: Seq<u8>| #[trigger] m1.contains_key(c) implies m1[c] =~= m2[c] by {
                assert forall|k: KeyView| m1[c].contains(k) implies m2[c].contains(k) by {
                    let j = choose|j: int| 0 <= j < av.len() && #[trigger] av[j]@ == k;
                    assert(covered_by_heads(heads, template, k));
                }
                assert forall|k: KeyView| m2[c].contains(k) implies m1[c].contains(k) by {
                    let w = choose|w: int|
                        0 <= w < heads.len() && k == derived_key(template, heads[w]);
                    assert(av[w]@ == k);
                }
            }
            assert(m1 =~= m2);
            // Stale entries: exactly the changes of stored keys that are
            // not visible, each mapped to one such key.
            assert(post.stale == stale_map(new_old@));
            assert forall|c: Seq<u8>| #[trigger] post.stale.contains_key(c) implies (exists|
                k: KeyView,
            |
                #[trigger] pre.store.contains_key(k) && k.change == c && !covered_by_heads(
                    heads,
                    template,
                    k,
                )) && pre.store.contains_key(post.stale[c]) && post.stale[c].change == c
                && !covered_by_heads(heads, template, post.stale[c]) by {
                let j = choose|j: int| 0 <= j < new_old@.len() && #[trigger] new_old@[j]@.change == c;
                lemma_stale_map_value(new_old@, j);
                assert(pre.store.contains_key(new_old@[j]@));
            }
            assert forall|c: Seq<u8>|
                (exists|k: KeyView|
                    #[trigger] pre.store.contains_key(k) && k.change == c && !covered_by_heads(
                        heads,
                        template,
                        k,
                    )) implies #[trigger] post.stale.contains_key(c) by {
                let k = choose|k: KeyView|
                    #[trigger] pre.store.contains_key(k) && k.change == c && !covered_by_heads(
                        heads,
                        template,
                        k,
                    );
                let d = choose|d: int| 0 <= d < docs0.len() && #[trigger] docs0[d]@.key == k;
                assert(exists|j: int|
                    0 <= j < new_old@.len() && #[trigger] new_old@[j]@.change
                        == docs0[d]@.key.change);
            }
            // Well-formedness: stale keys are stored and none is visible.
            assert forall|a: int, b: int|
                0 <= a < new_old@.len() && 0 <= b < av.len() implies new_old@[a]@ != av[b]@ by {
                assert(covered_by_heads(heads, template, av[b]@));
            }
        }
    }

    /// If the key has an exact entry, return it; otherwise compute the
    /// value, insert it, and return the freshly stored entry. The computed
    /// value must be keyed exactly as requested. Over the cache's
    /// lifetime, a key whose entry is stored is served without computing,
    /// so the computation runs at most once per distinct key while its
    /// entry survives.
    pub fn get_or_insert<T: FnOnce() -> CommitShowValue>(
        &mut self,
        key: &CommitShowKey,
        fn_value: T,
    ) -> (r: &CommitShowValue)
        requires
            old(self).inv(),
            call_requires(fn_value, ()),
            forall|v: CommitShowValue| #[trigger] call_ensures(fn_value, (), v) ==> v@.key == key@,
        ensures
            final(self).inv(),
            final(self)@.store.contains_key(key@),
            r@ == final(self)@.store[key@],
            old(self)@.store.contains_key(key@) ==> final(self)@ == old(self)@,
            !old(self)@.store.contains_key(key@) ==> exists|v: CommitShowValue|
                #[trigger] call_ensures(fn_value, (), v) && insert_post(
                    old(self)@,
                    v@,
                    final(self)@,
                ),
    {
        if !self.has_exact_match(key) {
            let value = fn_value();
            self.insert_document(value);
        }
        let r = self.get(key);
        r.unwrap()
    }
}

/// Structural invariants of a well-formed cache: a stale entry tracks its
/// own change identity, the key it keeps is stored, and that key is never
/// also among the active keys of its change — a stored key is served as a
/// stale fallback or found exactly, never ambiguously.
pub proof fn lemma_cache_invariants(c: &CommitShowCache)
    requires
        c.inv(),
    ensures
        forall|ch: Seq<u8>| #[trigger]
            c@.stale.contains_key(ch) ==> c@.stale[ch].change == ch && c@.store.contains_key(
                c@.stale[ch],
            ) && !(c@.active.contains_key(ch) && c@.active[ch].contains(c@.stale[ch])),
{
    assert forall|ch: Seq<u8>| #[trigger] c@.stale.contains_key(ch) implies c@.stale[ch].change
        == ch && c@.store.contains_key(c@.stale[ch]) && !(c@.active.contains_key(ch)
        && c@.active[ch].contains(c@.stale[ch])) by {
        let olds = c.old_commits@;
        let j = choose|j: int| 0 <= j < olds.len() && #[trigger] olds[j]@.change == ch;
        lemma_stale_map_value(olds, j);
        assert(docs_has_key(c.commit_document@, olds[j]@));
        if c@.active.contains_key(ch) && c@.active[ch].contains(olds[j]@) {
            let a = choose|a: int|
                0 <= a < c.active_commits@.len() && #[trigger] c.active_commits@[a]@ == olds[j]@;
            assert(olds[j]@ != c.active_commits@[a]@);
        }
    }
}

/// Idempotent miss: when a key has no entry and a computed value keyed by
/// it is inserted, the key has an exact entry afterwards, holding exactly
/// the computed value, and a fetch returns that stored value. A second
/// identical request therefore finds the exact entry and is served from
/// the store without computing again and without changing the cache (see
/// the contract of [`CommitShowCache::get_or_insert`]: an exact match
/// leaves the cache untouched).
pub proof fn lemma_idempotent_miss(pre: CacheModel, k: KeyView, v: ValueView, post: CacheModel)
    requires
        !pre.store.contains_key(k),
        v.key == k,
        insert_post(pre, v, post),
    ensures
        post.store.contains_key(k),
        post.store[k] == v,
        get_spec(post, k) == Some(v),
{
}

/// Width normalization: keys built for one identity and a format that does
/// not delegate to an external tool are equal whatever widths they were
/// requested with; keys for the tool-delegated format with different
/// widths are distinct.
pub proof fn lemma_width_normalization(id: HeadView, format: FormatView, w1: int, w2: int)
    ensures
        !(format is DiffTool) ==> key_new_spec(id, format, w1) == key_new_spec(id, format, w2),
        format is DiffTool && w1 != w2 ==> key_new_spec(id, format, w1) != key_new_spec(
            id,
            format,
            w2,
        ),
{
}

/// Divergence tolerance: two distinct keys sharing one change identity,
/// inserted in turn while their change has no stale entry (as when both
/// commits are visible), hold independent entries with no collision.
pub proof fn lemma_divergence_tolerance(
    m0: CacheModel,
    v1: ValueView,
    m1: CacheModel,
    v2: ValueView,
    m2: CacheModel,
)
    requires
        v1.key != v2.key,
        v1.key.change == v2.key.change,
        !m0.stale.contains_key(v1.key.change),
        insert_post(m0, v1, m1),
        insert_post(m1, v2, m2),
    ensures
        m2.store.contains_key(v1.key),
        m2.store.contains_key(v2.key),
        m2.store[v1.key] == v1,
        m2.store[v2.key] == v2,
{
}

/// Stale fallback then eviction: let a value be stored under key `k1`, the
/// only stored key of its change. After the visible set is rebuilt so that
/// `k1` is no longer visible but its change stays visible through another
/// key `k2` (not yet stored), a fetch of `k2` is served `k1`'s value as
/// the stale fallback. Once fresh content keyed `k2` is inserted, `k1`'s
/// entry is discarded: the store no longer holds `k1`, a fetch of `k1`
/// finds nothing, and a fetch of `k2` is served the fresh value.
pub proof fn lemma_stale_fallback_then_eviction(
    m1: CacheModel,
    k1: KeyView,
    v1: ValueView,
    heads: Seq<HeadView>,
    template: KeyView,
    m2: CacheModel,
    k2: KeyView,
    v2: ValueView,
    m3: CacheModel,
)
    requires
        m1.store.contains_key(k1),
        m1.store[k1] == v1,
        forall|k: KeyView|
            #[trigger] m1.store.contains_key(k) && k.change == k1.change ==> k == k1,
        !covered_by_heads(heads, template, k1),
        covered_by_heads(heads, template, k2),
        k2.change == k1.change,
        !m1.store.contains_key(k2),
        set_active_post(m1, heads, template, m2),
        v2.key == k2,
        insert_post(m2, v2, m3),
    ensures
        get_spec(m2, k2) == Some(v1),
        m3.store.contains_key(k2),
        m3.store[k2] == v2,
        get_spec(m3, k2) == Some(v2),
        !m3.store.contains_key(k1),
        get_spec(m3, k1) is None,
{
    let c = k1.change;
    assert(m2.stale.contains_key(c)) by {
        assert(m1.store.contains_key(k1) && k1.change == c && !covered_by_heads(
            heads,
            template,
            k1,
        ));
    }
    assert(m2.stale[c] == k1) by {
        assert(m1.store.contains_key(m2.stale[c]) && m2.stale[c].change == c);
    }
    assert(k1 != k2);
    assert(get_spec(m2, k2) == Some(v1));
    assert(m3.store == m2.store.remove(k1).insert(k2, v2));
    assert(m3.stale == m2.stale.remove(c));
    assert(get_spec(m3, k1) is None);
}

} // verus!
