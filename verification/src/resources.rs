//! The reference-counted resource cache for one resource kind.
//!
//! A `ResourceSystem<T>` maps load paths to cached resources. Each live entry
//! carries the number of handles given out to holders outside the cache (the
//! cache itself always holds one more, so an entry's strong count is
//! `refs + 1`). Entries whose outside count has dropped to zero are moved to
//! a garbage list by [`ResourceSystem::collect_garbage`] and destroyed only
//! after a caller-chosen number of further collection passes, so that work
//! already submitted to the device never loses a resource it still uses.

use vstd::prelude::*;

verus! {

/// One live cache entry: a resource stored under its load path.
///
/// `refs` counts the handles held outside the cache; `id` identifies the
/// underlying object (ids are never reused within one system, so two handles
/// name the same object exactly when their ids are equal).
pub struct Entry<T> {
    pub path: String,
    pub id: u64,
    pub refs: usize,
    pub resource: T,
}

/// Represents a resource soon to be deleted.
pub struct Garbage<T> {
    pub resource: T,
    pub cycles_remaining: u32,
}

impl<T> Garbage<T> {
    pub fn new(resource: T, cycles_remaining: u32) -> (g: Garbage<T>)
        ensures
            g.resource == resource,
            g.cycles_remaining == cycles_remaining,
    {
        Garbage { resource, cycles_remaining }
    }
}

/// A stringed representation of a resource.
/// Used for getting the status and info of the resource manager.
#[derive(Debug)]
pub struct ResourceInfo {
    pub name: String,
    pub ty: &'static str,
    pub strong_refs: usize,
    pub weak_refs: usize,
}

/// The outside-holder count after one more handle is given out.
pub open spec fn bumped(refs: usize) -> usize {
    if refs == usize::MAX {
        refs
    } else {
        (refs + 1) as usize
    }
}

/// The outside-holder count after one handle is given back.
pub open spec fn dropped(refs: usize) -> usize {
    if refs == 0 {
        0
    } else {
        (refs - 1) as usize
    }
}

/// The live entries that survive one collection pass: exactly those with at
/// least one holder outside the cache, in their original order.
pub open spec fn retained<T>(s: Seq<Entry<T>>) -> Seq<Entry<T>>
    decreases s.len(),
{
    if s.len() == 0 {
        Seq::empty()
    } else if s[0].refs >= 1 {
        seq![s[0]] + retained(s.drop_first())
    } else {
        retained(s.drop_first())
    }
}

/// The garbage entries created by one collection pass: the live entries with
/// no outside holder, each given `cycles` remaining passes.
pub open spec fn evicted<T>(s: Seq<Entry<T>>, cycles: u32) -> Seq<Garbage<T>>
    decreases s.len(),
{
    if s.len() == 0 {
        Seq::empty()
    } else if s[0].refs == 0 {
        seq![Garbage { resource: s[0].resource, cycles_remaining: cycles }] + evicted(
            s.drop_first(),
            cycles,
        )
    } else {
        evicted(s.drop_first(), cycles)
    }
}

/// The garbage entries that survive one collection pass, each with its
/// countdown decreased by one. An entry whose countdown reaches zero on this
/// pass is purged instead.
pub open spec fn ticked<T>(s: Seq<Garbage<T>>) -> Seq<Garbage<T>>
    decreases s.len(),
{
    if s.len() == 0 {
        Seq::empty()
    } else if s[0].cycles_remaining >= 2 {
        seq![
            Garbage {
                resource: s[0].resource,
                cycles_remaining: (s[0].cycles_remaining - 1) as u32,
            },
        ] + ticked(s.drop_first())
    } else {
        ticked(s.drop_first())
    }
}

/// The resources destroyed by one collection pass: those garbage entries
/// whose countdown reaches zero on this pass.
pub open spec fn purged<T>(s: Seq<Garbage<T>>) -> Seq<T>
    decreases s.len(),
{
    if s.len() == 0 {
        Seq::empty()
    } else if s[0].cycles_remaining <= 1 {
        seq![s[0].resource] + purged(s.drop_first())
    } else {
        purged(s.drop_first())
    }
}

/// No two entries share a path, and no two entries share an id.
pub open spec fn entries_distinct<T>(s: Seq<Entry<T>>) -> bool {
    forall|i: int, j: int|
        #![trigger s[i], s[j]]
        0 <= i < j < s.len() ==> s[i].path@ != s[j].path@ && s[i].id != s[j].id
}

/// All ids in the live list lie below the allocation bound.
pub open spec fn ids_below<T>(s: Seq<Entry<T>>, bound: u64) -> bool {
    forall|i: int| 0 <= i < s.len() ==> (#[trigger] s[i]).id < bound
}

/// Replacing an entry by one with the same path and id keeps the live list
/// well formed.
pub proof fn lemma_distinct_update<T>(s: Seq<Entry<T>>, i: int, e: Entry<T>, bound: u64)
    requires
        entries_distinct(s),
        ids_below(s, bound),
        0 <= i < s.len(),
        e.path@ == s[i].path@,
        e.id == s[i].id,
    ensures
        entries_distinct(s.update(i, e)),
        ids_below(s.update(i, e), bound),
{
    let t = s.update(i, e);
    assert forall|a: int, b: int|
        #![trigger t[a], t[b]]
        0 <= a < b < t.len() implies t[a].path@ != t[b].path@ && t[a].id != t[b].id by {
        assert(s[a].path@ != s[b].path@ && s[a].id != s[b].id);
    }
    assert forall|a: int| 0 <= a < t.len() implies (#[trigger] t[a]).id < bound by {
        assert(s[a].id < bound);
    }
}

/// Appending an entry with a fresh path and a fresh id keeps the live list
/// well formed.
pub proof fn lemma_distinct_push<T>(s: Seq<Entry<T>>, e: Entry<T>, bound: u64)
    requires
        entries_distinct(s),
        ids_below(s, bound),
        forall|k: int| 0 <= k < s.len() ==> (#[trigger] s[k]).path@ != e.path@,
        e.id == bound,
        bound < u64::MAX,
    ensures
        entries_distinct(s.push(e)),
        ids_below(s.push(e), (bound + 1) as u64),
{
    let t = s.push(e);
    assert forall|a: int, b: int|
        #![trigger t[a], t[b]]
        0 <= a < b < t.len() implies t[a].path@ != t[b].path@ && t[a].id != t[b].id by {
        if b < s.len() {
            assert(s[a].path@ != s[b].path@ && s[a].id != s[b].id);
        } else {
            assert(t[b] == e);
            assert(s[a].path@ != e.path@);
            assert(s[a].id < bound);
        }
    }
    assert forall|a: int| 0 <= a < t.len() implies (#[trigger] t[a]).id < bound + 1 by {
        if a < s.len() {
            assert(s[a].id < bound);
        }
    }
}

/// What loading an already cached path does to a system: the entry gains one
/// outside holder and the returned handle is its id; nothing else moves.
pub open spec fn load_hit_effect<T>(
    pre: ResourceSystem<T>,
    post: ResourceSystem<T>,
    path: Seq<char>,
    h: u64,
) -> bool {
    &&& h == pre.entry_at(path).id
    &&& post.live() == pre.live().update(
        pre.index_of(path),
        Entry { refs: bumped(pre.entry_at(path).refs), ..pre.entry_at(path) },
    )
    &&& post.garbage_list() == pre.garbage_list()
    &&& post.id_bound() == pre.id_bound()
}

/// What loading an uncached path does to a system: one new entry under a
/// fresh id, with the caller as its one outside holder.
pub open spec fn load_miss_effect<T>(
    pre: ResourceSystem<T>,
    post: ResourceSystem<T>,
    path: Seq<char>,
    h: u64,
) -> bool {
    let e = post.live().last();
    &&& post.live() == pre.live().push(e)
    &&& e.path@ == path
    &&& e.id == pre.id_bound()
    &&& e.refs == 1
    &&& h == e.id
    &&& post.garbage_list() == pre.garbage_list()
    &&& post.id_bound() == pre.id_bound() + 1
}

/// What a successful load does to a system: a hit bumps, a miss inserts.
pub open spec fn load_effect<T>(
    pre: ResourceSystem<T>,
    post: ResourceSystem<T>,
    path: Seq<char>,
    h: u64,
) -> bool {
    if pre.contains_path(path) {
        load_hit_effect(pre, post, path, h)
    } else {
        load_miss_effect(pre, post, path, h)
    }
}

/// Law: cache identity. Loading an already cached path returns the handle
/// of the existing object — the very id any earlier load of that path
/// returned — and the number of live entries does not grow.
pub proof fn lemma_cache_identity<T>(
    pre: ResourceSystem<T>,
    post: ResourceSystem<T>,
    path: Seq<char>,
    h: u64,
)
    requires
        pre.wf(),
        pre.contains_path(path),
        load_effect(pre, post, path, h),
    ensures
        h == pre.entry_at(path).id,
        post.live().len() == pre.live().len(),
        post.contains_path(path),
        post.entry_at(path).id == h,
        post.entry_at(path).resource == pre.entry_at(path).resource,
{
    lemma_load_extends(pre, post, path, h);
}

/// A run of loads only ever grows a cache: every entry that was live stays
/// live in place, with its path, id and resource untouched (only its holder
/// count may move), and the garbage list stays put.
pub open spec fn cache_extends<T>(pre: ResourceSystem<T>, post: ResourceSystem<T>) -> bool {
    &&& post.live().len() >= pre.live().len()
    &&& forall|i: int|
        0 <= i < pre.live().len() ==> {
            let a = #[trigger] post.live()[i];
            let b = pre.live()[i];
            a.path == b.path && a.id == b.id && a.resource == b.resource
        }
    &&& post.id_bound() >= pre.id_bound()
    &&& post.garbage_list() == pre.garbage_list()
}

/// A successful load extends the cache.
pub proof fn lemma_load_extends<T>(
    pre: ResourceSystem<T>,
    post: ResourceSystem<T>,
    path: Seq<char>,
    h: u64,
)
    requires
        load_effect(pre, post, path, h),
        pre.wf(),
    ensures
        cache_extends(pre, post),
        post.contains_path(path),
        h == post.entry_at(path).id,
    decreases 0nat,
{
    if pre.contains_path(path) {
        let i = pre.index_of(path);
        assert(post.live()[i].path@ == path);
        pre.lemma_index_unique(path, i);
        let j = choose|j: int|
            0 <= j < post.live().len() && (#[trigger] post.live()[j]).path@ == path;
        if j != i {
            assert(pre.live()[j].path@ != pre.live()[i].path@);
        }
        assert(post.index_of(path) == i || post.live()[post.index_of(path)].path@ == path);
        let k = post.index_of(path);
        if k != i {
            assert(0 <= k < post.live().len() && post.live()[k].path@ == path);
            assert(pre.live()[k].path@ == path);
            assert(pre.live()[k].path@ != pre.live()[i].path@);
        }
    } else {
        let e = post.live().last();
        assert(post.live()[post.live().len() - 1] == e);
        assert(post.contains_path(path));
        let k = post.index_of(path);
        assert(0 <= k < post.live().len() && post.live()[k].path@ == path);
        if k != post.live().len() - 1 {
            assert(pre.live()[k].path@ == path);
            assert(pre.contains_path(path));
        }
    }
}

/// Extension is transitive.
pub proof fn lemma_extends_trans<T>(
    a: ResourceSystem<T>,
    b: ResourceSystem<T>,
    c: ResourceSystem<T>,
)
    requires
        cache_extends(a, b),
        cache_extends(b, c),
    ensures
        cache_extends(a, c),
{
}

/// Extending a cache moves no entry: a path that was cached still names the
/// same id and resource.
pub proof fn lemma_extends_entry_stable<T>(
    pre: ResourceSystem<T>,
    post: ResourceSystem<T>,
    path: Seq<char>,
)
    requires
        cache_extends(pre, post),
        pre.wf(),
        post.wf(),
        pre.contains_path(path),
    ensures
        post.contains_path(path),
        post.index_of(path) == pre.index_of(path),
        post.entry_at(path).path == pre.entry_at(path).path,
        post.entry_at(path).id == pre.entry_at(path).id,
        post.entry_at(path).resource == pre.entry_at(path).resource,
{
    let i = pre.index_of(path);
    assert(0 <= i < pre.live().len() && pre.live()[i].path@ == path);
    assert(post.live()[i].path@ == path);
    post.lemma_index_unique(path, i);
}

/// Two live lists hold the same resources under the same paths and ids,
/// differing at most in their outside-holder counts.
pub open spec fn same_entries_modulo_refs<T>(s: Seq<Entry<T>>, t: Seq<Entry<T>>) -> bool {
    s.len() == t.len() && forall|i: int|
        0 <= i < s.len() ==> (#[trigger] s[i]).path == t[i].path && s[i].id == t[i].id
            && s[i].resource == t[i].resource
}

/// Two systems whose live lists pair up path for path contain the same
/// paths, at the same positions.
pub proof fn lemma_contains_transfer<T>(a: ResourceSystem<T>, b: ResourceSystem<T>, p: Seq<char>)
    requires
        a.wf(),
        b.wf(),
        a.live().len() == b.live().len(),
        forall|i: int| 0 <= i < a.live().len() ==> (#[trigger] a.live()[i]).path == b.live()[i].path,
    ensures
        a.contains_path(p) == b.contains_path(p),
        a.contains_path(p) ==> a.index_of(p) == b.index_of(p),
{
    if a.contains_path(p) {
        let w = a.index_of(p);
        assert(0 <= w < a.live().len() && a.live()[w].path@ == p);
        assert(b.live()[w].path@ == p);
        b.lemma_index_unique(p, w);
    }
    if b.contains_path(p) {
        let w = b.index_of(p);
        assert(0 <= w < b.live().len() && b.live()[w].path@ == p);
        assert(a.live()[w].path@ == p);
        a.lemma_index_unique(p, w);
    }
}

/// Two systems that agree modulo refs resolve a path to the same position,
/// id and resource.
pub proof fn lemma_modulo_refs_stable<T>(
    a: ResourceSystem<T>,
    b: ResourceSystem<T>,
    path: Seq<char>,
)
    requires
        same_entries_modulo_refs(a.live(), b.live()),
        a.wf(),
        b.wf(),
        b.contains_path(path),
    ensures
        a.contains_path(path),
        a.index_of(path) == b.index_of(path),
        a.entry_at(path).id == b.entry_at(path).id,
        a.entry_at(path).resource == b.entry_at(path).resource,
{
    let i = b.index_of(path);
    assert(0 <= i < b.live().len() && b.live()[i].path@ == path);
    assert(a.live()[i].path == b.live()[i].path);
    a.lemma_index_unique(path, i);
}

/// Dropping one entry from the middle of a well-formed live list keeps it
/// well formed.
pub proof fn lemma_distinct_drop<T>(a: Seq<Entry<T>>, e: Entry<T>, b: Seq<Entry<T>>, bound: u64)
    requires
        entries_distinct(a + seq![e] + b),
        ids_below(a + seq![e] + b, bound),
    ensures
        entries_distinct(a + b),
        ids_below(a + b, bound),
{
    let t = a + seq![e] + b;
    let u = a + b;
    assert forall|i: int, j: int|
        #![trigger u[i], u[j]]
        0 <= i < j < u.len() implies u[i].path@ != u[j].path@ && u[i].id != u[j].id by {
        let i2 = if i < a.len() {
            i
        } else {
            i + 1
        };
        let j2 = if j < a.len() {
            j
        } else {
            j + 1
        };
        assert(u[i] == t[i2]);
        assert(u[j] == t[j2]);
        assert(t[i2].path@ != t[j2].path@ && t[i2].id != t[j2].id);
    }
    assert forall|i: int| 0 <= i < u.len() implies (#[trigger] u[i]).id < bound by {
        let i2 = if i < a.len() {
            i
        } else {
            i + 1
        };
        assert(u[i] == t[i2]);
        assert(t[i2].id < bound);
    }
}

/// The live list after `n` collection passes, with no other operation in
/// between.
pub open spec fn retained_n<T>(s: Seq<Entry<T>>, n: nat) -> Seq<Entry<T>>
    decreases n,
{
    if n == 0 {
        s
    } else {
        retained(retained_n(s, (n - 1) as nat))
    }
}

/// The garbage list after `n` collection passes, looking only at the entries
/// that were already in it (each pass may also append newly evicted ones).
pub open spec fn ticked_n<T>(s: Seq<Garbage<T>>, n: nat) -> Seq<Garbage<T>>
    decreases n,
{
    if n == 0 {
        s
    } else {
        ticked(ticked_n(s, (n - 1) as nat))
    }
}

/// An entry with at least one outside holder survives one collection pass.
pub proof fn lemma_retained_contains<T>(s: Seq<Entry<T>>, i: int)
    requires
        0 <= i < s.len(),
        s[i].refs >= 1,
    ensures
        retained(s).contains(s[i]),
    decreases s.len(),
{
    if i == 0 {
        assert(retained(s)[0] == s[0]);
    } else {
        lemma_retained_contains(s.drop_first(), i - 1);
        let rest = retained(s.drop_first());
        let k = choose|k: int| 0 <= k < rest.len() && rest[k] == s.drop_first()[i - 1];
        if s[0].refs >= 1 {
            assert(retained(s)[k + 1] == rest[k]);
        } else {
            assert(retained(s)[k] == rest[k]);
        }
        assert(s.drop_first()[i - 1] == s[i]);
    }
}

/// Law: a resource with at least one holder outside the cache survives any
/// number of collection passes, entirely unchanged — its path, identity and
/// reference count included.
pub proof fn lemma_no_eviction_under_hold<T>(s: Seq<Entry<T>>, i: int, n: nat)
    requires
        0 <= i < s.len(),
        s[i].refs >= 1,
    ensures
        retained_n(s, n).contains(s[i]),
    decreases n,
{
    if n == 0 {
        assert(retained_n(s, n)[i] == s[i]);
    } else {
        lemma_no_eviction_under_hold(s, i, (n - 1) as nat);
        let t = retained_n(s, (n - 1) as nat);
        let k = choose|k: int| 0 <= k < t.len() && t[k] == s[i];
        lemma_retained_contains(t, k);
    }
}

/// Law: only resources with no outside holder are ever moved to the garbage
/// list; every garbage entry created by a pass stems from such an entry and
/// starts with the caller-chosen grace period.
pub proof fn lemma_evicted_only_unreferenced<T>(s: Seq<Entry<T>>, cycles: u32, k: int)
    requires
        0 <= k < evicted(s, cycles).len(),
    ensures
        exists|i: int|
            0 <= i < s.len() && (#[trigger] s[i]).refs == 0 && evicted(s, cycles)[k]
                == (Garbage { resource: s[i].resource, cycles_remaining: cycles }),
    decreases s.len(),
{
    if s.len() > 0 {
        if s[0].refs == 0 {
            if k == 0 {
                assert(s[0].refs == 0 && evicted(s, cycles)[0] == (Garbage {
                    resource: s[0].resource,
                    cycles_remaining: cycles,
                }));
            } else {
                lemma_evicted_only_unreferenced(s.drop_first(), cycles, k - 1);
                let i = choose|i: int|
                    0 <= i < s.drop_first().len() && (#[trigger] s.drop_first()[i]).refs == 0
                        && evicted(s.drop_first(), cycles)[k - 1] == (Garbage {
                        resource: s.drop_first()[i].resource,
                        cycles_remaining: cycles,
                    });
                assert(s[i + 1] == s.drop_first()[i]);
                assert(evicted(s, cycles)[k] == evicted(s.drop_first(), cycles)[k - 1]);
            }
        } else {
            lemma_evicted_only_unreferenced(s.drop_first(), cycles, k);
            let i = choose|i: int|
                0 <= i < s.drop_first().len() && (#[trigger] s.drop_first()[i]).refs == 0
                    && evicted(s.drop_first(), cycles)[k] == (Garbage {
                    resource: s.drop_first()[i].resource,
                    cycles_remaining: cycles,
                });
            assert(s[i + 1] == s.drop_first()[i]);
        }
    }
}

/// Every entry that survives a collection pass has an outside holder.
pub proof fn lemma_retained_refs<T>(s: Seq<Entry<T>>)
    ensures
        forall|k: int| 0 <= k < retained(s).len() ==> (#[trigger] retained(s)[k]).refs >= 1,
    decreases s.len(),
{
    if s.len() > 0 {
        lemma_retained_refs(s.drop_first());
        if s[0].refs >= 1 {
            assert forall|k: int|
                0 <= k < retained(s).len() implies (#[trigger] retained(s)[k]).refs >= 1 by {
                if k == 0 {
                    assert(retained(s)[0] == s[0]);
                } else {
                    assert(retained(s)[k] == retained(s.drop_first())[k - 1]);
                }
            }
        } else {
            assert forall|k: int|
                0 <= k < retained(s).len() implies (#[trigger] retained(s)[k]).refs >= 1 by {
                assert(retained(s)[k] == retained(s.drop_first())[k]);
            }
        }
    }
}

/// Law: a resource whose only reference is the cache's own is moved to the
/// garbage list by the next collection pass, with the full grace period,
/// and does not stay live.
pub proof fn lemma_unreferenced_is_evicted<T>(s: Seq<Entry<T>>, i: int, cycles: u32)
    requires
        0 <= i < s.len(),
        s[i].refs == 0,
    ensures
        evicted(s, cycles).contains(
            Garbage { resource: s[i].resource, cycles_remaining: cycles },
        ),
        !retained(s).contains(s[i]),
    decreases s.len(),
{
    lemma_retained_refs(s);
    if retained(s).contains(s[i]) {
        let k = choose|k: int| 0 <= k < retained(s).len() && retained(s)[k] == s[i];
        assert(retained(s)[k].refs >= 1);
    }
    let g = Garbage::<T> { resource: s[i].resource, cycles_remaining: cycles };
    if i == 0 {
        assert(evicted(s, cycles)[0] == g);
    } else {
        lemma_unreferenced_is_evicted(s.drop_first(), i - 1, cycles);
        let rest = evicted(s.drop_first(), cycles);
        assert(s.drop_first()[i - 1] == s[i]);
        let k = choose|k: int| 0 <= k < rest.len() && rest[k] == g;
        if s[0].refs == 0 {
            assert(evicted(s, cycles)[k + 1] == rest[k]);
        } else {
            assert(evicted(s, cycles)[k] == rest[k]);
        }
    }
}

/// A garbage entry with at least two passes left survives one pass with its
/// countdown exactly one lower.
pub proof fn lemma_ticked_contains<T>(s: Seq<Garbage<T>>, i: int)
    requires
        0 <= i < s.len(),
        s[i].cycles_remaining >= 2,
    ensures
        ticked(s).contains(
            Garbage {
                resource: s[i].resource,
                cycles_remaining: (s[i].cycles_remaining - 1) as u32,
            },
        ),
    decreases s.len(),
{
    let g = Garbage::<T> {
        resource: s[i].resource,
        cycles_remaining: (s[i].cycles_remaining - 1) as u32,
    };
    if i == 0 {
        assert(ticked(s)[0] == g);
    } else {
        lemma_ticked_contains(s.drop_first(), i - 1);
        let rest = ticked(s.drop_first());
        assert(s.drop_first()[i - 1] == s[i]);
        let k = choose|k: int| 0 <= k < rest.len() && rest[k] == g;
        if s[0].cycles_remaining >= 2 {
            assert(ticked(s)[k + 1] == rest[k]);
        } else {
            assert(ticked(s)[k] == rest[k]);
        }
    }
}

/// Law: a garbage entry's countdown falls by exactly one on each collection
/// pass, and the entry is never resurrected or refreshed: after `n` passes
/// (for `n` below its starting count) it is still pending with exactly
/// `n` fewer cycles remaining.
pub proof fn lemma_monotonic_countdown<T>(s: Seq<Garbage<T>>, i: int, n: nat)
    requires
        0 <= i < s.len(),
        n < s[i].cycles_remaining,
    ensures
        ticked_n(s, n).contains(
            Garbage {
                resource: s[i].resource,
                cycles_remaining: (s[i].cycles_remaining - n) as u32,
            },
        ),
    decreases n,
{
    if n == 0 {
        assert(ticked_n(s, n)[i] == s[i]);
        assert(s[i] == (Garbage {
            resource: s[i].resource,
            cycles_remaining: (s[i].cycles_remaining - 0) as u32,
        }));
    } else {
        lemma_monotonic_countdown(s, i, (n - 1) as nat);
        let t = ticked_n(s, (n - 1) as nat);
        let g = Garbage::<T> {
            resource: s[i].resource,
            cycles_remaining: (s[i].cycles_remaining - (n - 1)) as u32,
        };
        let k = choose|k: int| 0 <= k < t.len() && t[k] == g;
        lemma_ticked_contains(t, k);
    }
}

/// A garbage entry whose countdown has run out is destroyed by the next
/// pass: its resource is among the values the pass returns.
pub proof fn lemma_purged_when_due<T>(s: Seq<Garbage<T>>, i: int)
    requires
        0 <= i < s.len(),
        s[i].cycles_remaining <= 1,
    ensures
        purged(s).contains(s[i].resource),
    decreases s.len(),
{
    if i == 0 {
        assert(purged(s)[0] == s[0].resource);
    } else {
        lemma_purged_when_due(s.drop_first(), i - 1);
        let rest = purged(s.drop_first());
        assert(s.drop_first()[i - 1] == s[i]);
        let k = choose|k: int| 0 <= k < rest.len() && rest[k] == s[i].resource;
        if s[0].cycles_remaining <= 1 {
            assert(purged(s)[k + 1] == rest[k]);
        } else {
            assert(purged(s)[k] == rest[k]);
        }
    }
}

/// Manages a single type of resource.
/// Used internally in `ResourceManager`, but can also be used to assemble
/// your own kind of resource manager.
pub struct ResourceSystem<T> {
    entries: Vec<Entry<T>>,
    garbage: Vec<Garbage<T>>,
    next_id: u64,
}

impl<T> ResourceSystem<T> {
    /// The live entries, in insertion order.
    pub closed spec fn live(&self) -> Seq<Entry<T>> {
        self.entries@
    }

    /// The garbage entries, oldest first.
    pub closed spec fn garbage_list(&self) -> Seq<Garbage<T>> {
        self.garbage@
    }

    /// All ids handed out so far lie below this bound.
    pub closed spec fn id_bound(&self) -> u64 {
        self.next_id
    }

    pub open spec fn contains_path(&self, path: Seq<char>) -> bool {
        exists|i: int| 0 <= i < self.live().len() && #[trigger] self.live()[i].path@ == path
    }

    /// The index of the live entry stored under `path`.
    pub open spec fn index_of(&self, path: Seq<char>) -> int {
        choose|i: int| 0 <= i < self.live().len() && #[trigger] self.live()[i].path@ == path
    }

    /// The live entry stored under `path`.
    pub open spec fn entry_at(&self, path: Seq<char>) -> Entry<T> {
        self.live()[self.index_of(path)]
    }

    pub open spec fn contains_id(&self, id: u64) -> bool {
        exists|i: int| 0 <= i < self.live().len() && #[trigger] self.live()[i].id == id
    }

    /// The index of the live entry with the given id.
    pub open spec fn index_of_id(&self, id: u64) -> int {
        choose|i: int| 0 <= i < self.live().len() && #[trigger] self.live()[i].id == id
    }

    pub open spec fn wf(&self) -> bool {
        entries_distinct(self.live()) && ids_below(self.live(), self.id_bound())
    }

    /// Both systems hold the same abstract state.
    pub open spec fn same_state(&self, other: &ResourceSystem<T>) -> bool {
        &&& self.live() == other.live()
        &&& self.garbage_list() == other.garbage_list()
        &&& self.id_bound() == other.id_bound()
    }

    /// With distinct paths, any index matching a path is the index `index_of`
    /// picks.
    pub proof fn lemma_index_unique(&self, path: Seq<char>, i: int)
        requires
            self.wf(),
            0 <= i < self.live().len(),
            self.live()[i].path@ == path,
        ensures
            self.index_of(path) == i,
            self.contains_path(path),
    {
        assert(self.contains_path(path));
        let j = self.index_of(path);
        if i != j {
            assert(self.live()[i].path@ != self.live()[j].path@);
        }
    }

    /// With distinct ids, any index matching an id is the index `index_of_id`
    /// picks.
    pub proof fn lemma_id_index_unique(&self, id: u64, i: int)
        requires
            self.wf(),
            0 <= i < self.live().len(),
            self.live()[i].id == id,
        ensures
            self.index_of_id(id) == i,
            self.contains_id(id),
    {
        assert(self.contains_id(id));
        let j = self.index_of_id(id);
        if i != j {
            assert(self.live()[i].id != self.live()[j].id);
        }
    }

    pub fn new() -> (s: ResourceSystem<T>)
        ensures
            s.live() == Seq::<Entry<T>>::empty(),
            s.garbage_list() == Seq::<Garbage<T>>::empty(),
            s.id_bound() == 0,
            s.wf(),
    {
        let s = ResourceSystem { entries: Vec::new(), garbage: Vec::new(), next_id: 0 };
        proof {
            assert(s.live() =~= Seq::<Entry<T>>::empty());
            assert(s.garbage_list() =~= Seq::<Garbage<T>>::empty());
        }
        s
    }

    /// The index of the live entry stored under `path`, if any.
    fn find_index(&self, path: &str) -> (r: Option<usize>)
        requires
            self.wf(),
        ensures
            r is Some <==> self.contains_path(path@),
            r matches Some(i) ==> i == self.index_of(path@) && i < self.live().len()
                && self.live()[i as int].path@ == path@,
    {
        let p: String = path.to_owned();
        let n = self.entries.len();
        let mut i: usize = 0;
        while i < n
            invariant
                self.wf(),
                p@ == path@,
                n == self.live().len(),
                0 <= i <= n,
                forall|j: int| 0 <= j < i ==> (#[trigger] self.live()[j]).path@ != path@,
            decreases n - i,
        {
            if self.entries[i].path == p {
                proof {
                    self.lemma_index_unique(path@, i as int);
                }
                return Some(i);
            }
            i += 1;
        }
        None
    }

    /// The position of the live entry stored under `path`, if any. No
    /// mutation, no handle given out.
    pub fn position(&self, path: &str) -> (r: Option<usize>)
        requires
            self.wf(),
        ensures
            r is Some <==> self.contains_path(path@),
            r matches Some(i) ==> i == self.index_of(path@) && i < self.live().len()
                && self.live()[i as int].path@ == path@,
    {
        self.find_index(path)
    }

    /// Whether a resource is currently cached under `path`. No mutation.
    pub fn contains(&self, path: &str) -> (r: bool)
        requires
            self.wf(),
        ensures
            r == self.contains_path(path@),
    {
        self.find_index(path).is_some()
    }

    /// Returns a handle to an already loaded resource, counting the caller as
    /// one more outside holder. Returns `None` if the path isn't cached.
    pub fn get(&mut self, path: &str) -> (r: Option<u64>)
        requires
            old(self).wf(),
        ensures
            final(self).wf(),
            r is Some <==> old(self).contains_path(path@),
            r matches Some(h) ==> {
                let i = old(self).index_of(path@);
                &&& h == old(self).live()[i].id
                &&& final(self).live() == old(self).live().update(
                    i,
                    Entry {
                        refs: bumped(old(self).live()[i].refs),
                        ..old(self).live()[i]
                    },
                )
            },
            r is None ==> final(self).live() == old(self).live(),
            final(self).garbage_list() == old(self).garbage_list(),
            final(self).id_bound() == old(self).id_bound(),
    {
        match self.find_index(path) {
            Some(i) => {
                let ghost oldlive = self.live();
                let e = &self.entries[i];
                let id = e.id;
                let new_refs = if e.refs == usize::MAX {
                    e.refs
                } else {
                    e.refs + 1
                };
                self.entries[i].refs = new_refs;
                proof {
                    let bumped_entry = Entry {
                        refs: bumped(oldlive[i as int].refs),
                        ..oldlive[i as int]
                    };
                    assert(self.live() =~= oldlive.update(i as int, bumped_entry));
                    lemma_distinct_update(oldlive, i as int, bumped_entry, self.id_bound());
                }
                Some(id)
            },
            None => None,
        }
    }

    /// Stores a freshly loaded resource under `path` and returns a handle,
    /// counting the caller as its one outside holder.
    pub fn insert(&mut self, path: String, resource: T) -> (h: u64)
        requires
            old(self).wf(),
            !old(self).contains_path(path@),
            old(self).id_bound() < u64::MAX,
        ensures
            final(self).wf(),
            h == old(self).id_bound(),
            final(self).live() == old(self).live().push(
                Entry { path, id: h, refs: 1, resource },
            ),
            final(self).garbage_list() == old(self).garbage_list(),
            final(self).id_bound() == old(self).id_bound() + 1,
    {
        let id = self.next_id;
        self.next_id = id + 1;
        self.entries.push(Entry { path, id, refs: 1, resource });
        proof {
            let s = old(self).live();
            let e = self.live()[s.len() as int];
            assert(self.live() =~= s.push(e));
            assert forall|k: int| 0 <= k < s.len() implies (#[trigger] s[k]).path@ != e.path@ by {
                if s[k].path@ == e.path@ {
                    assert(old(self).contains_path(e.path@));
                }
            }
            lemma_distinct_push(s, e, old(self).id_bound());
        }
        id
    }

    /// Gives back one outside handle to the resource with the given id.
    /// Returns false (and changes nothing) if no live entry has that id,
    /// which happens when the cache has already let the resource go.
    pub fn release(&mut self, handle: u64) -> (r: bool)
        requires
            old(self).wf(),
        ensures
            final(self).wf(),
            r == old(self).contains_id(handle),
            r ==> {
                let i = old(self).index_of_id(handle);
                final(self).live() == old(self).live().update(
                    i,
                    Entry {
                        refs: dropped(old(self).live()[i].refs),
                        ..old(self).live()[i]
                    },
                )
            },
            !r ==> final(self).live() == old(self).live(),
            final(self).garbage_list() == old(self).garbage_list(),
            final(self).id_bound() == old(self).id_bound(),
    {
        let n = self.entries.len();
        let mut i: usize = 0;
        while i < n
            invariant
                self.wf(),
                *self == *old(self),
                n == self.live().len(),
                0 <= i <= n,
                forall|j: int| 0 <= j < i ==> (#[trigger] self.live()[j]).id != handle,
            decreases n - i,
        {
            if self.entries[i].id == handle {
                proof {
                    self.lemma_id_index_unique(handle, i as int);
                }
                let ghost oldlive = self.live();
                let r = self.entries[i].refs;
                let new_refs = if r == 0 {
                    0
                } else {
                    r - 1
                };
                self.entries[i].refs = new_refs;
                proof {
                    let dropped_entry = Entry {
                        refs: dropped(oldlive[i as int].refs),
                        ..oldlive[i as int]
                    };
                    assert(self.live() =~= oldlive.update(i as int, dropped_entry));
                    lemma_distinct_update(oldlive, i as int, dropped_entry, self.id_bound());
                }
                return true;
            }
            i += 1;
        }
        false
    }

    /// Goes through the loaded resources and moves every resource with no
    /// outside holder into the garbage list. A resource placed there is
    /// destroyed only once `garbage_cycles` further collection passes have
    /// run, so that it is no longer in use by an in-flight frame; this pass
    /// also advances those countdowns and returns the resources whose
    /// countdown ran out.
    pub fn collect_garbage(&mut self, garbage_cycles: u32) -> (destroyed: Vec<T>)
        requires
            old(self).wf(),
        ensures
            final(self).wf(),
            final(self).live() == retained(old(self).live()),
            final(self).garbage_list() == ticked(old(self).garbage_list()) + evicted(
                old(self).live(),
                garbage_cycles,
            ),
            destroyed@ == purged(old(self).garbage_list()),
            final(self).id_bound() == old(self).id_bound(),
    {
        let mut destroyed: Vec<T> = Vec::new();
        let mut new_garbage: Vec<Garbage<T>> = Vec::new();

        proof {
            assert(new_garbage@ + ticked(self.garbage@) =~= ticked(self.garbage@));
            assert(destroyed@ + purged(self.garbage@) =~= purged(self.garbage@));
        }
        while self.garbage.len() > 0
            invariant
                self.entries@ == old(self).entries@,
                self.next_id == old(self).next_id,
                ticked(old(self).garbage_list()) == new_garbage@ + ticked(self.garbage@),
                purged(old(self).garbage_list()) == destroyed@ + purged(self.garbage@),
            decreases self.garbage.len(),
        {
            let ghost gs = self.garbage@;
            let g = self.garbage.remove(0);
            proof {
                assert(self.garbage@ =~= gs.drop_first());
                assert(g == gs[0]);
            }
            if g.cycles_remaining <= 1 {
                let ghost dprev = destroyed@;
                destroyed.push(g.resource);
                proof {
                    assert(purged(gs) == seq![gs[0].resource] + purged(gs.drop_first()));
                    assert(dprev + purged(gs) =~= destroyed@ + purged(self.garbage@));
                }
            } else {
                let ghost nprev = new_garbage@;
                new_garbage.push(
                    Garbage { resource: g.resource, cycles_remaining: g.cycles_remaining - 1 },
                );
                proof {
                    assert(ticked(gs) == seq![
                        Garbage {
                            resource: gs[0].resource,
                            cycles_remaining: (gs[0].cycles_remaining - 1) as u32,
                        },
                    ] + ticked(gs.drop_first()));
                    assert(nprev + ticked(gs) =~= new_garbage@ + ticked(self.garbage@));
                }
            }
        }
        proof {
            assert(ticked(old(self).garbage_list()) =~= new_garbage@);
            assert(purged(old(self).garbage_list()) =~= destroyed@);
        }

        let mut new_entries: Vec<Entry<T>> = Vec::new();
        proof {
            assert(new_entries@ + self.entries@ =~= self.entries@);
            assert(new_entries@ + retained(self.entries@) =~= retained(self.entries@));
            assert(
                new_garbage@ + evicted(self.entries@, garbage_cycles) =~= ticked(
                    old(self).garbage_list(),
                ) + evicted(old(self).live(), garbage_cycles));
        }
        while self.entries.len() > 0
            invariant
                self.next_id == old(self).next_id,
                entries_distinct(new_entries@ + self.entries@),
                ids_below(new_entries@ + self.entries@, self.next_id),
                retained(old(self).live()) == new_entries@ + retained(self.entries@),
                new_garbage@ + evicted(self.entries@, garbage_cycles) == ticked(
                    old(self).garbage_list(),
                ) + evicted(old(self).live(), garbage_cycles),
                destroyed@ == purged(old(self).garbage_list()),
            decreases self.entries.len(),
        {
            let ghost es = self.entries@;
            let ghost nprev = new_entries@;
            let ghost gprev = new_garbage@;
            let e = self.entries.remove(0);
            proof {
                assert(self.entries@ =~= es.drop_first());
                assert(e == es[0]);
            }
            if e.refs >= 1 {
                new_entries.push(e);
                proof {
                    assert(retained(es) == seq![es[0]] + retained(es.drop_first()));
                    assert(nprev + retained(es) =~= new_entries@ + retained(self.entries@));
                    assert(evicted(es, garbage_cycles) == evicted(
                        es.drop_first(),
                        garbage_cycles,
                    ));
                    assert(nprev + es =~= new_entries@ + self.entries@);
                }
            } else {
                new_garbage.push(Garbage { resource: e.resource, cycles_remaining: garbage_cycles });
                proof {
                    assert(retained(es) == retained(es.drop_first()));
                    assert(evicted(es, garbage_cycles) == seq![
                        Garbage { resource: es[0].resource, cycles_remaining: garbage_cycles },
                    ] + evicted(es.drop_first(), garbage_cycles));
                    assert(
                        gprev + evicted(es, garbage_cycles) =~= new_garbage@ + evicted(
                            self.entries@,
                            garbage_cycles,
                        ));
                    assert(nprev + seq![es[0]] + es.drop_first() =~= nprev + es);
                    lemma_distinct_drop(nprev, es[0], es.drop_first(), self.next_id);
                    assert(nprev + es.drop_first() =~= new_entries@ + self.entries@);
                }
            }
        }
        self.entries = new_entries;
        self.garbage = new_garbage;
        proof {
            assert(self.live() + Seq::<Entry<T>>::empty() =~= self.live());
            assert(retained(old(self).live()) =~= self.live());
            assert(
                self.garbage_list() =~= ticked(old(self).garbage_list()) + evicted(
                    old(self).live(),
                    garbage_cycles,
                ));
        }
        destroyed
    }

    /// A diagnostic snapshot of the live entries: name, kind, and reference
    /// counts (the cache's own reference included in `strong_refs`). No
    /// mutation; no weak handles exist, so `weak_refs` is always zero.
    pub fn info(&self, ty: &'static str) -> (r: Vec<ResourceInfo>)
        ensures
            r@.len() == self.live().len(),
            forall|i: int|
                0 <= i < r@.len() ==> {
                    &&& (#[trigger] r@[i]).name@ == self.live()[i].path@
                    &&& r@[i].ty == ty
                    &&& r@[i].strong_refs == bumped(self.live()[i].refs)
                    &&& r@[i].weak_refs == 0
                },
    {
        let mut r: Vec<ResourceInfo> = Vec::new();
        let n = self.entries.len();
        let mut i: usize = 0;
        while i < n
            invariant
                n == self.live().len(),
                0 <= i <= n,
                r@.len() == i,
                forall|j: int|
                    0 <= j < i ==> {
                        &&& (#[trigger] r@[j]).name@ == self.live()[j].path@
                        &&& r@[j].ty == ty
                        &&& r@[j].strong_refs == bumped(self.live()[j].refs)
                        &&& r@[j].weak_refs == 0
                    },
            decreases n - i,
        {
            let e = &self.entries[i];
            let strong = if e.refs == usize::MAX {
                e.refs
            } else {
                e.refs + 1
            };
            r.push(ResourceInfo { name: e.path.clone(), ty, strong_refs: strong, weak_refs: 0 });
            i += 1;
        }
        r
    }

    /// Moves the live entries out, leaving the live map empty. The garbage
    /// list and the id counter stay: ids are never reused.
    pub fn take_live(&mut self) -> (r: Vec<Entry<T>>)
        ensures
            r@ == old(self).live(),
            final(self).live() == Seq::<Entry<T>>::empty(),
            final(self).garbage_list() == old(self).garbage_list(),
            final(self).id_bound() == old(self).id_bound(),
            final(self).wf(),
    {
        let mut taken: Vec<Entry<T>> = Vec::new();
        core::mem::swap(&mut taken, &mut self.entries);
        proof {
            assert(self.live() =~= Seq::<Entry<T>>::empty());
        }
        taken
    }

    /// Replaces the live map with freshly rebuilt resources: each one gets a
    /// new id and starts with no outside holder. The garbage list keeps
    /// whatever was already pending.
    pub fn replace_live(&mut self, values: Vec<(String, T)>) -> (r: ())
        requires
            old(self).wf(),
            old(self).live().len() == 0,
            forall|i: int, j: int|
                0 <= i < j < values@.len() ==> (#[trigger] values@[i]).0@ != (
                #[trigger] values@[j]).0@,
            old(self).id_bound() + values@.len() <= u64::MAX,
        ensures
            final(self).wf(),
            final(self).live().len() == values@.len(),
            forall|i: int|
                0 <= i < values@.len() ==> {
                    let e = #[trigger] final(self).live()[i];
                    &&& e.path == values@[i].0
                    &&& e.resource == values@[i].1
                    &&& e.refs == 0
                    &&& e.id == old(self).id_bound() + i
                },
            final(self).garbage_list() == old(self).garbage_list(),
            final(self).id_bound() == old(self).id_bound() + values@.len(),
    {
        let ghost base = self.next_id;
        let ghost vs = values@;
        let mut values = values;
        let n = values.len();
        let mut k: usize = 0;
        while k < n
            invariant
                vs.len() == n,
                self.next_id == base + k,
                base + n <= u64::MAX,
                0 <= k <= n,
                values@ == vs.subrange(k as int, n as int),
                self.garbage@ == old(self).garbage@,
                self.live().len() == k,
                forall|i: int, j: int|
                    0 <= i < j < vs.len() ==> (#[trigger] vs[i]).0@ != (#[trigger] vs[j]).0@,
                forall|i: int|
                    0 <= i < k ==> {
                        let e = #[trigger] self.live()[i];
                        &&& e.path == vs[i].0
                        &&& e.resource == vs[i].1
                        &&& e.refs == 0
                        &&& e.id == base + i
                    },
            decreases n - k,
        {
            let ghost pre = self.live();
            let (path, resource) = values.remove(0);
            let id = self.next_id;
            self.next_id = id + 1;
            self.entries.push(Entry { path, id, refs: 0, resource });
            proof {
                assert(values@ =~= vs.subrange(k as int + 1, n as int));
            }
            k += 1;
        }
        proof {
            let s = self.live();
            assert forall|i: int, j: int|
                #![trigger s[i], s[j]]
                0 <= i < j < s.len() implies s[i].path@ != s[j].path@ && s[i].id != s[j].id by {
                assert(vs[i].0@ != vs[j].0@);
            }
        }
    }

    /// The id the next inserted resource would get: ids below it are spent.
    pub fn id_counter(&self) -> (r: u64)
        ensures
            r == self.id_bound(),
    {
        self.next_id
    }

    /// The number of garbage entries still counting down.
    pub fn garbage_len(&self) -> (n: usize)
        ensures
            n == self.garbage_list().len(),
    {
        self.garbage.len()
    }

    /// The number of live entries.
    pub fn len(&self) -> (n: usize)
        ensures
            n == self.live().len(),
    {
        self.entries.len()
    }

    /// Read access to the live entry at a position.
    pub fn entry_ref(&self, i: usize) -> (e: &Entry<T>)
        requires
            i < self.live().len(),
        ensures
            *e == self.live()[i as int],
    {
        &self.entries[i]
    }
}

} // verus!
