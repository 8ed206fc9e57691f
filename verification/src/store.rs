//! The generic entity store: an identity-keyed registry for one entity type.
//!
//! A store owns a list of (identifier, entity) pairs in which no identifier
//! occurs twice, plus an optional backing file path. Identifiers are 128-bit
//! values drawn at registration time and checked for freshness, so every key
//! in a well-formed store was produced by its own registration operation.
//!
//! File reading and writing live outside this crate; the store's side of
//! persistence is [`Store::from_load`], which turns the outcome of a load
//! attempt into a well-formed store, falling back to an empty one rather
//! than failing.

use vstd::prelude::*;
use vstd::set_lib::lemma_int_range;
use vstd::set_lib::lemma_len_subset;

use crate::builder::Builder;

verus! {

/// Relies on `uuid::Uuid::new_v4` (with `Uuid::as_u128` converting it to a
/// plain integer) for a freshly drawn random 128-bit identifier. The value is
/// random, so nothing is promised of it; callers establish freshness
/// themselves.
#[verifier::external_body]
pub(crate) fn random_id() -> u128 {
    uuid::Uuid::new_v4().as_u128()
}

/// The identifiers of a pair sequence, in order.
pub open spec fn ids_of<T>(s: Seq<(u128, T)>) -> Seq<u128> {
    s.map_values(|p: (u128, T)| p.0)
}

/// The entities of a pair sequence, in order.
pub open spec fn entities_of<T>(s: Seq<(u128, T)>) -> Seq<T> {
    s.map_values(|p: (u128, T)| p.1)
}

/// Whether some pair of `s` carries the identifier `id`.
pub open spec fn has_id<T>(s: Seq<(u128, T)>, id: u128) -> bool {
    exists|k: int| 0 <= k < s.len() && s[k].0 == id
}

/// No identifier occurs twice in `s`.
pub open spec fn distinct_ids<T>(s: Seq<(u128, T)>) -> bool {
    forall|j: int, k: int| 0 <= j < k < s.len() ==> s[j].0 != s[k].0
}

/// The index of the pair carrying `id`; meaningful only when `has_id` holds
/// and the identifiers are distinct, which makes the index unique.
pub open spec fn idx_of<T>(s: Seq<(u128, T)>, id: u128) -> int {
    choose|k: int| 0 <= k < s.len() && s[k].0 == id
}

/// The entity stored under `id`; meaningful under the same conditions.
pub open spec fn entity_at<T>(s: Seq<(u128, T)>, id: u128) -> T {
    s[idx_of(s, id)].1
}

/// The views of a sequence of entities, in order.
pub open spec fn views_of<T: View>(s: Seq<T>) -> Seq<T::V> {
    s.map_values(|e: T| e@)
}

/// A pair sequence with each entity replaced by its view.
pub open spec fn pairs_view<T: View>(s: Seq<(u128, T)>) -> Seq<(u128, T::V)> {
    s.map_values(|p: (u128, T)| (p.0, p.1@))
}

/// Under distinct identifiers, the index chosen for a present identifier is
/// exactly the position where a scan finds it.
pub proof fn lemma_idx_unique<T>(s: Seq<(u128, T)>, id: u128, i: int)
    requires
        distinct_ids(s),
        0 <= i < s.len(),
        s[i].0 == id,
    ensures
        idx_of(s, id) == i,
        has_id(s, id),
        entity_at(s, id) == s[i].1,
{
    assert(has_id(s, id));
    let k = idx_of(s, id);
    assert(0 <= k < s.len() && s[k].0 == id);
    if k != i {
        if k < i {
            assert(s[k].0 != s[i].0);
        } else {
            assert(s[i].0 != s[k].0);
        }
    }
}

/// Appending a pair with a fresh identifier keeps the identifiers distinct
/// and stores the new entity under the new identifier.
pub proof fn lemma_fresh_push<T>(s: Seq<(u128, T)>, id: u128, v: T)
    requires
        distinct_ids(s),
        !has_id(s, id),
    ensures
        distinct_ids(s.push((id, v))),
        has_id(s.push((id, v)), id),
        idx_of(s.push((id, v)), id) == s.len(),
        entity_at(s.push((id, v)), id) == v,
        forall|o: u128| o != id ==> has_id(s.push((id, v)), o) == has_id(s, o),
        forall|o: u128| o != id && has_id(s, o) ==> idx_of(s.push((id, v)), o) == idx_of(s, o)
            && entity_at(s.push((id, v)), o) == entity_at(s, o),
{
    let t = s.push((id, v));
    assert forall|j: int, k: int| 0 <= j < k < t.len() implies t[j].0 != t[k].0 by {
        if k < s.len() {
            assert(s[j].0 != s[k].0);
        } else {
            assert(t[k] == (id, v));
            if t[j].0 == id {
                assert(has_id(s, id));
            }
        }
    }
    lemma_idx_unique(t, id, s.len() as int);
    assert forall|o: u128| o != id implies has_id(t, o) == has_id(s, o) by {
        if has_id(s, o) {
            let k = choose|k: int| 0 <= k < s.len() && s[k].0 == o;
            assert(t[k].0 == o);
        }
        if has_id(t, o) {
            let k = choose|k: int| 0 <= k < t.len() && t[k].0 == o;
            assert(k < s.len() && s[k].0 == o);
        }
    }
    assert forall|o: u128| o != id && has_id(s, o) implies idx_of(t, o) == idx_of(s, o)
        && entity_at(t, o) == entity_at(s, o) by {
        let k = idx_of(s, o);
        assert(0 <= k < s.len() && s[k].0 == o);
        lemma_idx_unique(t, o, k);
    }
}

/// Removing the pair at a present identifier's index keeps the remaining
/// identifiers distinct and removes exactly that identifier.
pub proof fn lemma_remove_id<T>(s: Seq<(u128, T)>, id: u128)
    requires
        distinct_ids(s),
        has_id(s, id),
    ensures
        distinct_ids(s.remove(idx_of(s, id))),
        !has_id(s.remove(idx_of(s, id)), id),
        s.remove(idx_of(s, id)).len() == s.len() - 1,
        forall|o: u128| o != id ==> has_id(s.remove(idx_of(s, id)), o) == has_id(s, o),
{
    let i = idx_of(s, id);
    assert(0 <= i < s.len() && s[i].0 == id);
    let t = s.remove(i);
    assert forall|j: int, k: int| 0 <= j < k < t.len() implies t[j].0 != t[k].0 by {
        let j0 = if j < i { j } else { j + 1 };
        let k0 = if k < i { k } else { k + 1 };
        assert(t[j] == s[j0] && t[k] == s[k0]);
        assert(s[j0].0 != s[k0].0);
    }
    assert forall|k: int| 0 <= k < t.len() implies t[k].0 != id by {
        let k0 = if k < i { k } else { k + 1 };
        assert(t[k] == s[k0]);
        if s[k0].0 == id {
            lemma_idx_unique(s, id, k0);
        }
    }
    assert forall|o: u128| o != id && has_id(s, o) implies has_id(t, o) by {
        let k0 = choose|k: int| 0 <= k < s.len() && s[k].0 == o;
        if k0 < i {
            assert(t[k0].0 == o);
        } else {
            assert(t[k0 - 1].0 == o);
        }
    }
    assert forall|o: u128| o != id && has_id(t, o) implies has_id(s, o) by {
        let k = choose|k: int| 0 <= k < t.len() && t[k].0 == o;
        let k0 = if k < i { k } else { k + 1 };
        assert(s[k0].0 == o);
    }
}

/// Registration monotonicity. After registering `e1` into a well-formed
/// store (its pairs were `s`, the fresh identifier `id1`), the entry under
/// `id1` is exactly `e1`, the entry count has grown by exactly one, and a
/// second registration — whose identifier `id2` is fresh for the grown
/// store — yields a distinct identifier, so two registrations of equal
/// entities produce two stored copies, never a deduplication.
pub proof fn lemma_registration_monotonic<T>(s: Seq<(u128, T)>, id1: u128, e1: T, id2: u128)
    requires
        distinct_ids(s),
        !has_id(s, id1),
        !has_id(s.push((id1, e1)), id2),
    ensures
        has_id(s.push((id1, e1)), id1),
        entity_at(s.push((id1, e1)), id1) == e1,
        s.push((id1, e1)).len() == s.len() + 1,
        id2 != id1,
        forall|o: u128| o != id1 && has_id(s, o) ==> entity_at(s.push((id1, e1)), o)
            == entity_at(s, o),
{
    lemma_fresh_push(s, id1, e1);
}

/// Deregistration idempotence. Removing an absent identifier changes
/// nothing (that is the deregister contract directly); removing a present
/// one removes exactly that entry — every other identifier keeps its
/// presence and its entity — and a second removal of the same identifier
/// finds nothing.
pub proof fn lemma_deregistration_idempotent<T>(s: Seq<(u128, T)>, id: u128)
    requires
        distinct_ids(s),
        has_id(s, id),
    ensures
        distinct_ids(s.remove(idx_of(s, id))),
        !has_id(s.remove(idx_of(s, id)), id),
        s.remove(idx_of(s, id)).len() == s.len() - 1,
        forall|o: u128| o != id ==> has_id(s.remove(idx_of(s, id)), o) == has_id(s, o),
        forall|o: u128| o != id && has_id(s, o) ==> entity_at(s.remove(idx_of(s, id)), o)
            == entity_at(s, o),
{
    lemma_remove_id(s, id);
    let i = idx_of(s, id);
    let t = s.remove(i);
    assert forall|o: u128| o != id && has_id(s, o) implies entity_at(t, o) == entity_at(
        s,
        o,
    ) by {
        let k0 = idx_of(s, o);
        assert(0 <= k0 < s.len() && s[k0].0 == o);
        lemma_idx_unique(s, id, i);
        if k0 < i {
            assert(t[k0] == s[k0]);
            lemma_idx_unique(t, o, k0);
        } else {
            assert(k0 != i);
            assert(t[k0 - 1] == s[k0]);
            lemma_idx_unique(t, o, k0 - 1);
        }
    }
}

/// Persistence round trip, the store's side: the dumped entries of a
/// well-formed store have distinct identifiers, so loading them back is
/// taken as-is and reproduces exactly the store's pairs.
pub proof fn lemma_dump_reload<T: View>(dump: Seq<(u128, T)>, s: Seq<(u128, T::V)>)
    requires
        pairs_view(dump) == s,
        distinct_ids(s),
    ensures
        distinct_ids(dump),
{
    lemma_pairs_view_ids(dump);
}

/// What the surrounding I/O layer found when it tried to load a store's
/// backing file.
pub enum LoadOutcome<T> {
    /// The file existed and parsed to these identifier–entity pairs.
    Parsed(Vec<(u128, T)>),
    /// No file existed at the expected path (a fresh one is created there).
    Missing,
    /// The file could not be read or did not parse.
    Unreadable,
}

/// A draft-convertible, identity-keyed entity registry with selector-free
/// CRUD operations; one store holds entities of one type.
pub trait Store<T: View>: Sized {
    /// Every stored (identifier, entity-value) pair, in insertion order.
    spec fn pairs(&self) -> Seq<(u128, T::V)>;

    /// The backing file path this store saves to, when bound to one.
    spec fn path(&self) -> Option<Seq<char>>;

    /// Well-formed: no identifier occurs twice.
    spec fn wf(&self) -> bool;

    /// A well-formed store's identifiers are distinct.
    proof fn wf_distinct(&self)
        requires
            self.wf(),
        ensures
            distinct_ids(self.pairs()),
    ;

    /// The fixed name of the file this store type persists under.
    spec fn json_name_spec() -> Seq<char>;

    /// The fixed name of the file this store type persists under.
    fn get_json_name() -> (r: String)
        ensures
            r@ == Self::json_name_spec(),
    ;

    /// Binds the store to a backing file path, leaving its contents alone.
    fn set_config_path(&mut self, path: String)
        ensures
            final(self).path() == Some(path@),
            final(self).pairs() == old(self).pairs(),
            final(self).wf() == old(self).wf(),
    ;

    /// The backing file path, if the store is bound to one.
    fn get_config_path(&self) -> (r: Option<String>)
        ensures
            match r {
                Some(p) => self.path() == Some(p@),
                None => self.path() is None,
            },
    ;

    /// Inserts the entity under a freshly drawn identifier and returns that
    /// identifier. Never fails, and never deduplicates: registering equal
    /// entities twice yields two entries under two identifiers.
    fn register(&mut self, entry: T) -> (id: u128)
        requires
            old(self).wf(),
        ensures
            final(self).wf(),
            !has_id(old(self).pairs(), id),
            final(self).pairs() == old(self).pairs().push((id, entry@)),
            final(self).path() == old(self).path(),
    ;

    /// Removes the entry under `id` if present and reports whether it was;
    /// removing an absent identifier is not an error and changes nothing.
    fn deregister(&mut self, id: u128) -> (r: bool)
        requires
            old(self).wf(),
        ensures
            final(self).wf(),
            r == has_id(old(self).pairs(), id),
            r ==> final(self).pairs() == old(self).pairs().remove(
                idx_of(old(self).pairs(), id),
            ),
            !r ==> final(self).pairs() == old(self).pairs(),
            final(self).path() == old(self).path(),
    ;

    /// A snapshot of every stored entity, in insertion order.
    fn get_entries(&self) -> (r: Vec<T>)
        ensures
            views_of(r@) == entities_of(self.pairs()),
    ;

    /// An owned copy of the entity under `id`, or nothing when `id` is
    /// unknown.
    fn get_entry(&self, id: u128) -> (r: Option<T>)
        requires
            self.wf(),
        ensures
            match r {
                Some(e) => has_id(self.pairs(), id) && e@ == entity_at(self.pairs(), id),
                None => !has_id(self.pairs(), id),
            },
    ;

    /// Replaces the entity under `id` in place and reports whether `id` was
    /// present; an unknown identifier changes nothing.
    fn update_entry(&mut self, id: u128, entry: T) -> (r: bool)
        requires
            old(self).wf(),
        ensures
            final(self).wf(),
            r == has_id(old(self).pairs(), id),
            r ==> final(self).pairs() == old(self).pairs().update(
                idx_of(old(self).pairs(), id),
                (id, entry@),
            ),
            !r ==> final(self).pairs() == old(self).pairs(),
            final(self).path() == old(self).path(),
    ;

    /// Materializes the builder's draft and registers the result in one step.
    fn build_from<B: Builder<T>>(&mut self, builder: &B) -> (id: u128)
        requires
            old(self).wf(),
        ensures
            final(self).wf(),
            !has_id(old(self).pairs(), id),
            final(self).pairs() == old(self).pairs().push((id, B::built_of(builder@))),
            final(self).path() == old(self).path(),
    {
        self.register(builder.build())
    }

    /// Turns the outcome of a load attempt into a store, preferring an
    /// empty store to a failure: parsed pairs are taken as-is when their
    /// identifiers are distinct and discarded as malformed otherwise; a
    /// missing file yields an empty store bound to the expected path; an
    /// unreadable or unparsable file yields an empty, unbound store.
    fn from_load(outcome: LoadOutcome<T>, path: String) -> (r: Self)
        ensures
            r.wf(),
            match outcome {
                LoadOutcome::Parsed(pairs) => {
                    &&& (distinct_ids(pairs@) ==> r.pairs() == pairs_view(pairs@))
                    &&& (!distinct_ids(pairs@) ==> r.pairs() == Seq::<(u128, T::V)>::empty())
                    &&& r.path() == Some(path@)
                },
                LoadOutcome::Missing => r.pairs() == Seq::<(u128, T::V)>::empty() && r.path()
                    == Some(path@),
                LoadOutcome::Unreadable => r.pairs() == Seq::<(u128, T::V)>::empty() && r.path()
                    is None,
            },
    ;
}

/// Replacing each entity by its view leaves length and identifiers alone,
/// so identifier facts transfer between a pair list and its view.
pub proof fn lemma_pairs_view_ids<T: View>(s: Seq<(u128, T)>)
    ensures
        pairs_view(s).len() == s.len(),
        forall|k: int| 0 <= k < s.len() ==> (#[trigger] pairs_view(s)[k]) == (s[k].0, s[k].1@),
        forall|id: u128| #[trigger] has_id(pairs_view(s), id) == has_id(s, id),
        distinct_ids(pairs_view(s)) == distinct_ids(s),
        distinct_ids(s) ==> forall|id: u128|
            #[trigger] has_id(s, id) ==> idx_of(pairs_view(s), id) == idx_of(s, id),
{
    let t = pairs_view(s);
    assert forall|id: u128| #[trigger] has_id(t, id) == has_id(s, id) by {
        if has_id(s, id) {
            let k = choose|k: int| 0 <= k < s.len() && s[k].0 == id;
            assert(t[k].0 == id);
        }
        if has_id(t, id) {
            let k = choose|k: int| 0 <= k < t.len() && t[k].0 == id;
            assert(s[k].0 == id);
        }
    }
    if distinct_ids(s) {
        assert forall|j: int, k: int| 0 <= j < k < t.len() implies t[j].0 != t[k].0 by {
            assert(s[j].0 != s[k].0);
        }
        assert(distinct_ids(t));
    }
    if distinct_ids(t) {
        assert forall|j: int, k: int| 0 <= j < k < s.len() implies s[j].0 != s[k].0 by {
            assert(t[j].0 != t[k].0);
        }
        assert(distinct_ids(s));
    }
    if distinct_ids(s) {
        assert forall|id: u128| #[trigger] has_id(s, id) implies idx_of(t, id) == idx_of(
            s,
            id,
        ) by {
            let k = idx_of(s, id);
            assert(0 <= k < s.len() && s[k].0 == id);
            assert(distinct_ids(t));
            lemma_idx_unique(t, id, k);
        }
    }
}

/// Taking views commutes with appending a pair.
pub proof fn lemma_pairs_view_push<T: View>(s: Seq<(u128, T)>, id: u128, e: T)
    ensures
        pairs_view(s.push((id, e))) == pairs_view(s).push((id, e@)),
{
    assert(pairs_view(s.push((id, e))) =~= pairs_view(s).push((id, e@)));
}

/// Taking views commutes with removing the pair at an index.
pub proof fn lemma_pairs_view_remove<T: View>(s: Seq<(u128, T)>, i: int)
    requires
        0 <= i < s.len(),
    ensures
        pairs_view(s.remove(i)) == pairs_view(s).remove(i),
{
    assert(pairs_view(s.remove(i)) =~= pairs_view(s).remove(i));
}

/// Taking views commutes with replacing the pair at an index.
pub proof fn lemma_pairs_view_update<T: View>(s: Seq<(u128, T)>, i: int, id: u128, e: T)
    requires
        0 <= i < s.len(),
    ensures
        pairs_view(s.update(i, (id, e))) == pairs_view(s).update(i, (id, e@)),
{
    assert(pairs_view(s.update(i, (id, e))) =~= pairs_view(s).update(i, (id, e@)));
}

/// Decides whether no identifier occurs twice in `entries`.
pub(crate) fn ids_distinct<T>(entries: &Vec<(u128, T)>) -> (r: bool)
    ensures
        r == distinct_ids(entries@),
{
    let n = entries.len();
    let mut j: usize = 0;
    while j < n
        invariant
            j <= n == entries@.len(),
            forall|a: int, b: int| 0 <= a < b < entries@.len() && a < j ==> entries@[a].0
                != entries@[b].0,
        decreases n - j,
    {
        let mut k: usize = j + 1;
        while k < n
            invariant
                j < k <= n == entries@.len(),
                forall|b: int| j < b < k ==> entries@[j as int].0 != entries@[b].0,
            decreases n - k,
        {
            if entries[j].0 == entries[k].0 {
                return false;
            }
            k = k + 1;
        }
        j = j + 1;
    }
    true
}

/// Whether any of the first `n` pairs carries `id`.
pub(crate) open spec fn has_id_upto<T>(s: Seq<(u128, T)>, id: u128, n: int) -> bool {
    exists|k: int| 0 <= k < n && s[k].0 == id
}

/// Scans a pair list for an identifier and returns the index of its first
/// occurrence, if any.
pub(crate) fn scan_for_id<T>(entries: &Vec<(u128, T)>, id: u128) -> (r: Option<usize>)
    ensures
        match r {
            Some(i) => i < entries@.len() && entries@[i as int].0 == id,
            None => !has_id(entries@, id),
        },
{
    let n = entries.len();
    let mut i: usize = 0;
    while i < n
        invariant
            i <= n == entries@.len(),
            !has_id_upto(entries@, id, i as int),
        decreases n - i,
    {
        if entries[i].0 == id {
            return Some(i);
        }
        i = i + 1;
    }
    None
}

/// Chooses an identifier that no pair of `entries` carries, preferring a
/// freshly drawn random one and probing upward from it on collision. The
/// probe is bounded: among `entries.len() + 1` consecutive candidates at
/// least one must be free.
pub(crate) fn fresh_id<T>(entries: &Vec<(u128, T)>) -> (id: u128)
    ensures
        !has_id(entries@, id),
{
    let candidate = random_id();
    let n = entries.len();
    let base: u128 = if candidate <= u128::MAX - (n as u128) {
        candidate
    } else {
        0
    };
    let mut i: u128 = 0;
    while i <= n as u128
        invariant
            n == entries@.len(),
            base + n <= u128::MAX,
            i <= n + 1,
            forall|k: int| 0 <= k < i ==> #[trigger] has_id(entries@, (base + k) as u128),
        decreases n + 1 - i,
    {
        let attempt: u128 = base + i;
        if scan_for_id(entries, attempt).is_none() {
            return attempt;
        }
        i = i + 1;
    }
    proof {
        lemma_some_id_free(entries@, base);
    }
    vstd::pervasive::unreached()
}

/// Among `entries.len() + 1` consecutive identifiers at least one is free:
/// a list of `n` pairs carries at most `n` distinct identifiers.
proof fn lemma_some_id_free<T>(s: Seq<(u128, T)>, base: u128)
    requires
        base + s.len() <= u128::MAX,
    ensures
        exists|k: int| 0 <= k <= s.len() && !(#[trigger] has_id(s, (base + k) as u128)),
{
    broadcast use vstd::set::group_set_axioms;
    broadcast use vstd::seq_lib::seq_to_set_is_finite;

    let n = s.len() as int;
    if forall|k: int| 0 <= k <= n ==> #[trigger] has_id(s, (base + k) as u128) {
        let ints = ids_of(s).map_values(|x: u128| x as int);
        let taken = ints.to_set();
        ints.lemma_cardinality_of_set();
        assert(ints.len() == n);
        assert(taken.len() <= n);
        let range = vstd::set_lib::set_int_range(base as int, base as int + n + 1);
        lemma_int_range(base as int, base as int + n + 1);
        assert(range.len() == n + 1);
        assert forall|v: int| range.contains(v) implies taken.contains(v) by {
            let k = v - base;
            assert(0 <= k <= n);
            assert(has_id(s, (base + k) as u128));
            let j = choose|j: int| 0 <= j < s.len() && s[j].0 == (base + k) as u128;
            assert(ids_of(s)[j] == (base + k) as u128);
            assert(ints[j] == v);
            assert(ints.contains(v));
        }
        lemma_len_subset(range, taken);
    }
}

} // verus!
