use vstd::prelude::*;

use crate::item::WorkItem;

verus! {

/// The ids of the records selected by `sel`, in insertion (id) order.
/// Every listing operation of the registry is specified through this
/// function, dereferenced through the canonical records.
pub open spec fn matching_ids(items: Seq<WorkItem>, sel: spec_fn(WorkItem) -> bool) -> Seq<u64>
    decreases items.len(),
{
    if items.len() == 0 {
        Seq::empty()
    } else {
        let prefix = matching_ids(items.drop_last(), sel);
        if sel(items.last()) {
            prefix.push((items.len() - 1) as u64)
        } else {
            prefix
        }
    }
}

/// The records at the given positions, in the order the ids are listed.
pub open spec fn records_at(items: Seq<WorkItem>, ids: Seq<u64>) -> Seq<WorkItem> {
    ids.map_values(|id: u64| items[id as int])
}

/// Strictly increasing ids: insertion order, with no duplicates.
pub open spec fn ids_sorted(ids: Seq<u64>) -> bool {
    forall|k1: int, k2: int| 0 <= k1 < k2 < ids.len() ==> ids[k1] < ids[k2]
}

/// What `matching_ids` selects: every listed id is in range, selected,
/// and strictly increasing, and every selected position is listed.
pub proof fn lemma_matching_ids_props(items: Seq<WorkItem>, sel: spec_fn(WorkItem) -> bool)
    requires
        items.len() <= u64::MAX,
    ensures
        forall|k: int|
            0 <= k < matching_ids(items, sel).len() ==> #[trigger] matching_ids(items, sel)[k]
                < items.len() && sel(items[matching_ids(items, sel)[k] as int]),
        ids_sorted(matching_ids(items, sel)),
        forall|j: int|
            0 <= j < items.len() && #[trigger] sel(items[j]) ==> matching_ids(items, sel).contains(
                j as u64,
            ),
    decreases items.len(),
{
    let m = matching_ids(items, sel);
    if items.len() == 0 {
    } else {
        let prev = items.drop_last();
        let m_prev = matching_ids(prev, sel);
        lemma_matching_ids_props(prev, sel);
        assert(forall|j: int| 0 <= j < prev.len() ==> prev[j] == items[j]);
        assert forall|k: int| 0 <= k < m.len() implies #[trigger] m[k] < items.len() && sel(
            items[m[k] as int],
        ) by {
            if k < m_prev.len() {
                assert(m[k] == m_prev[k]);
                assert(prev[m_prev[k] as int] == items[m_prev[k] as int]);
            } else {
                assert(sel(items.last()));
                assert(m[k] == (items.len() - 1) as u64);
            }
        }
        assert forall|k1: int, k2: int| 0 <= k1 < k2 < m.len() implies m[k1] < m[k2] by {
            if k2 < m_prev.len() {
                assert(m[k1] == m_prev[k1] && m[k2] == m_prev[k2]);
            } else {
                assert(m[k1] == m_prev[k1]);
                assert(m_prev[k1] < prev.len());
            }
        }
        assert forall|j: int| 0 <= j < items.len() && #[trigger] sel(items[j]) implies m.contains(
            j as u64,
        ) by {
            if j == items.len() - 1 {
                assert(items.last() == items[j]);
                assert(m[m.len() - 1] == j as u64);
            } else {
                assert(prev[j] == items[j]);
                assert(m_prev.contains(j as u64));
                let k = choose|k: int| 0 <= k < m_prev.len() && m_prev[k] == j as u64;
                assert(m[k] == j as u64);
            }
        }
    }
}

/// A strictly increasing list of ids that is sound (each listed
/// position is selected) and complete (each selected position is
/// listed) is exactly `matching_ids`: the filter has a unique such
/// presentation.
pub proof fn lemma_ids_unique(
    items: Seq<WorkItem>,
    sel: spec_fn(WorkItem) -> bool,
    ids: Seq<u64>,
)
    requires
        items.len() <= u64::MAX,
        ids_sorted(ids),
        forall|k: int|
            0 <= k < ids.len() ==> #[trigger] ids[k] < items.len() && sel(items[ids[k] as int]),
        forall|j: int| 0 <= j < items.len() && #[trigger] sel(items[j]) ==> ids.contains(j as u64),
    ensures
        ids == matching_ids(items, sel),
    decreases items.len(),
{
    if items.len() == 0 {
        assert(ids.len() == 0) by {
            if ids.len() > 0 {
                assert(ids[0] < items.len());
            }
        }
        assert(ids =~= matching_ids(items, sel));
    } else {
        let prev = items.drop_last();
        let n = items.len() - 1;
        assert(forall|j: int| 0 <= j < prev.len() ==> prev[j] == items[j]);
        if sel(items.last()) {
            assert(items[n] == items.last());
            assert(ids.contains(n as u64));
            let ki = choose|k: int| 0 <= k < ids.len() && ids[k] == n as u64;
            assert(ki == ids.len() - 1) by {
                if ki < ids.len() - 1 {
                    assert(ids[ki] < ids[ids.len() - 1]);
                    assert(ids[ids.len() - 1] < items.len());
                }
            }
            let ids_prev = ids.drop_last();
            assert forall|k: int| 0 <= k < ids_prev.len() implies #[trigger] ids_prev[k]
                < prev.len() && sel(prev[ids_prev[k] as int]) by {
                assert(ids_prev[k] == ids[k]);
                assert(ids[k] < ids[ki]);
                assert(prev[ids[k] as int] == items[ids[k] as int]);
            }
            assert forall|j: int| 0 <= j < prev.len() && #[trigger] sel(prev[j]) implies
                ids_prev.contains(j as u64) by {
                assert(prev[j] == items[j]);
                assert(ids.contains(j as u64));
                let k = choose|k: int| 0 <= k < ids.len() && ids[k] == j as u64;
                assert(k != ki);
                assert(k < ids.len() - 1) by {
                    if k > ki {
                        assert(ids[ki] < ids[k]);
                        assert(ids[k] < items.len());
                    }
                }
                assert(ids_prev[k] == j as u64);
            }
            lemma_ids_unique(prev, sel, ids_prev);
            assert(ids =~= ids_prev.push(n as u64));
        } else {
            assert forall|k: int| 0 <= k < ids.len() implies #[trigger] ids[k] < prev.len() && sel(
                prev[ids[k] as int],
            ) by {
                assert(ids[k] != n as u64) by {
                    if ids[k] == n as u64 {
                        assert(sel(items[n]));
                        assert(items[n] == items.last());
                    }
                }
                assert(prev[ids[k] as int] == items[ids[k] as int]);
            }
            assert forall|j: int| 0 <= j < prev.len() && #[trigger] sel(prev[j]) implies
                ids.contains(j as u64) by {
                assert(prev[j] == items[j]);
            }
            lemma_ids_unique(prev, sel, ids);
        }
    }
}

/// One secondary index bucket: the ids — never copies of the records —
/// of the items whose key equals `key`, in insertion order.
pub(crate) struct IdBucket {
    pub(crate) key: String,
    pub(crate) ids: Vec<u64>,
}

/// Soundness of one bucket: every listed id is in range, carries this
/// bucket's key, and the list is strictly increasing.
pub(crate) open spec fn bucket_ok(
    b: IdBucket,
    items: Seq<WorkItem>,
    key_of: spec_fn(WorkItem) -> Option<Seq<char>>,
) -> bool {
    &&& ids_sorted(b.ids@)
    &&& forall|k: int|
        0 <= k < b.ids@.len() ==> #[trigger] b.ids@[k] < items.len() && key_of(
            items[b.ids@[k] as int],
        ) == Some(b.key@)
}

/// The index invariant: bucket keys are distinct, each bucket is sound,
/// and every record whose key is present appears in the bucket of that
/// key. Together with `lemma_ids_unique` this pins each bucket to
/// `matching_ids` of its key.
pub(crate) open spec fn buckets_valid(
    buckets: Seq<IdBucket>,
    items: Seq<WorkItem>,
    key_of: spec_fn(WorkItem) -> Option<Seq<char>>,
) -> bool {
    &&& forall|a: int, b: int|
        0 <= a < b < buckets.len() ==> (#[trigger] buckets[a].key@) != (#[trigger] buckets[b].key@)
    &&& forall|a: int| 0 <= a < buckets.len() ==> bucket_ok(#[trigger] buckets[a], items, key_of)
    &&& forall|j: int|
        0 <= j < items.len() && (#[trigger] key_of(items[j])) is Some ==> exists|a: int|
            0 <= a < buckets.len() && buckets[a].key@ == key_of(items[j])->0
                && buckets[a].ids@.contains(j as u64)
}

/// The selector a bucket with key `key` answers for.
pub open spec fn key_sel(
    key_of: spec_fn(WorkItem) -> Option<Seq<char>>,
    key: Seq<char>,
) -> spec_fn(WorkItem) -> bool {
    |it: WorkItem| key_of(it) == Some(key)
}

/// Position of the bucket with the given key, if one exists.
pub(crate) fn find_bucket(buckets: &Vec<IdBucket>, key: &String) -> (r: Option<usize>)
    ensures
        (match r {
            Some(b) => 0 <= b < buckets@.len() && buckets@[b as int].key@ == key@,
            None => forall|a: int| 0 <= a < buckets@.len() ==> buckets@[a].key@ != key@,
        }),
{
    let mut i: usize = 0;
    while i < buckets.len()
        invariant
            i <= buckets@.len(),
            forall|a: int| 0 <= a < i ==> buckets@[a].key@ != key@,
        decreases buckets@.len() - i,
    {
        if buckets[i].key == *key {
            return Some(i);
        }
        i = i + 1;
    }
    None
}

/// A copy of `v` with `id` inserted at its sorted position.
pub(crate) fn ids_with_inserted(v: &Vec<u64>, id: u64) -> (res: Vec<u64>)
    requires
        ids_sorted(v@),
        !v@.contains(id),
    ensures
        ids_sorted(res@),
        res@.len() == v@.len() + 1,
        forall|x: u64| res@.contains(x) <==> (v@.contains(x) || x == id),
{
    let mut out: Vec<u64> = Vec::new();
    let mut i: usize = 0;
    while i < v.len() && v[i] < id
        invariant
            i <= v@.len(),
            out@ == v@.take(i as int),
            forall|k: int| 0 <= k < i ==> v@[k] < id,
        decreases v@.len() - i,
    {
        out.push(v[i]);
        proof {
            assert(out@ =~= v@.take(i as int + 1));
        }
        i = i + 1;
    }
    let ghost pos = i as int;
    proof {
        assert forall|k: int| pos <= k < v@.len() implies v@[k] > id by {
            assert(v@[pos] != id) by {
                if v@[pos] == id {
                    assert(v@.contains(id));
                }
            }
            if k > pos {
                assert(v@[pos] < v@[k]);
            }
        }
    }
    out.push(id);
    while i < v.len()
        invariant
            0 <= pos <= i <= v@.len(),
            out@ == v@.take(pos).push(id) + v@.subrange(pos, i as int),
            forall|k: int| 0 <= k < pos ==> v@[k] < id,
            forall|k: int| pos <= k < v@.len() ==> v@[k] > id,
        decreases v@.len() - i,
    {
        out.push(v[i]);
        proof {
            assert(out@ =~= v@.take(pos).push(id) + v@.subrange(pos, i as int + 1));
        }
        i = i + 1;
    }
    proof {
        let fin = v@.take(pos).push(id) + v@.subrange(pos, v@.len() as int);
        assert(out@ == fin);
        assert(forall|k: int|
            0 <= k < fin.len() ==> fin[k] == (if k < pos {
                v@[k]
            } else if k == pos {
                id
            } else {
                v@[k - 1]
            }));
        assert forall|k1: int, k2: int| 0 <= k1 < k2 < out@.len() implies out@[k1] < out@[k2] by {
            if k1 < pos && k2 < pos {
                assert(v@[k1] < v@[k2]);
            } else if k2 == pos {
                assert(out@[k1] == v@[k1] && v@[k1] < id);
            } else if k1 == pos {
                assert(out@[k2] == v@[k2 - 1] && v@[k2 - 1] > id);
            } else if k1 > pos {
                assert(v@[k1 - 1] < v@[k2 - 1]);
            } else {
                assert(out@[k1] == v@[k1] && out@[k2] == v@[k2 - 1]);
                if k1 < k2 - 1 {
                    assert(v@[k1] < v@[k2 - 1]);
                } else {
                    assert(v@[k1] < id && id < v@[k2 - 1]);
                }
            }
        }
        assert forall|x: u64| out@.contains(x) implies (v@.contains(x) || x == id) by {
            let k = choose|k: int| 0 <= k < out@.len() && out@[k] == x;
            if k < pos {
                assert(v@[k] == x);
            } else if k > pos {
                assert(v@[k - 1] == x);
            }
        }
        assert forall|x: u64| (v@.contains(x) || x == id) implies out@.contains(x) by {
            if x == id {
                assert(out@[pos] == x);
            } else {
                let k = choose|k: int| 0 <= k < v@.len() && v@[k] == x;
                if k < pos {
                    assert(out@[k] == x);
                } else {
                    assert(out@[k + 1] == x);
                }
            }
        }
    }
    out
}

/// The index is unaffected by a change of the records that leaves every
/// key as it was, and by new records that carry no key.
pub(crate) proof fn lemma_buckets_stable(
    buckets: Seq<IdBucket>,
    items_old: Seq<WorkItem>,
    items_new: Seq<WorkItem>,
    key_of: spec_fn(WorkItem) -> Option<Seq<char>>,
)
    requires
        buckets_valid(buckets, items_old, key_of),
        items_old.len() <= items_new.len(),
        forall|j: int| 0 <= j < items_old.len() ==> key_of(items_new[j]) == key_of(items_old[j]),
        forall|j: int| items_old.len() <= j < items_new.len() ==> key_of(items_new[j]) is None,
    ensures
        buckets_valid(buckets, items_new, key_of),
{
    assert forall|a: int| 0 <= a < buckets.len() implies bucket_ok(
        #[trigger] buckets[a],
        items_new,
        key_of,
    ) by {
        assert(bucket_ok(buckets[a], items_old, key_of));
        assert forall|k: int| 0 <= k < buckets[a].ids@.len() implies #[trigger] buckets[a].ids@[k]
            < items_new.len() && key_of(items_new[buckets[a].ids@[k] as int]) == Some(
            buckets[a].key@,
        ) by {
            assert(buckets[a].ids@[k] < items_old.len());
        }
    }
    assert forall|j: int|
        0 <= j < items_new.len() && (#[trigger] key_of(items_new[j])) is Some implies exists|a: int|
        0 <= a < buckets.len() && buckets[a].key@ == key_of(items_new[j])->0
            && buckets[a].ids@.contains(j as u64) by {
        assert(j < items_old.len());
        assert(key_of(items_old[j]) is Some);
        let a = choose|a: int|
            0 <= a < buckets.len() && buckets[a].key@ == key_of(items_old[j])->0
                && buckets[a].ids@.contains(j as u64);
        assert(buckets[a].key@ == key_of(items_new[j])->0);
    }
}

/// Add `id`, whose record newly carries `key`, to the index: into the
/// bucket of `key` at its sorted position, or into a fresh bucket.
pub(crate) fn bucket_add(
    buckets: &mut Vec<IdBucket>,
    key: &String,
    id: u64,
    Ghost(items_old): Ghost<Seq<WorkItem>>,
    Ghost(items_new): Ghost<Seq<WorkItem>>,
    Ghost(key_of): Ghost<spec_fn(WorkItem) -> Option<Seq<char>>>,
)
    requires
        buckets_valid(old(buckets)@, items_old, key_of),
        id < items_new.len(),
        key_of(items_new[id as int]) == Some(key@),
        (id == items_old.len() && items_new.len() == items_old.len() + 1) || (id < items_old.len()
            && items_new.len() == items_old.len() && key_of(items_old[id as int]) is None),
        forall|j: int|
            0 <= j < items_new.len() && j != id ==> j < items_old.len() && key_of(items_new[j])
                == key_of(items_old[j]),
    ensures
        buckets_valid(final(buckets)@, items_new, key_of),
{
    let ghost pre = buckets@;
    let found = find_bucket(buckets, key);
    match found {
        Some(b) => {
            proof {
                assert(bucket_ok(pre[b as int], items_old, key_of));
                assert(!pre[b as int].ids@.contains(id)) by {
                    if pre[b as int].ids@.contains(id) {
                        let k = choose|k: int|
                            0 <= k < pre[b as int].ids@.len() && pre[b as int].ids@[k] == id;
                        assert(pre[b as int].ids@[k] < items_old.len());
                        assert(key_of(items_old[id as int]) == Some(pre[b as int].key@));
                    }
                }
            }
            let new_ids = ids_with_inserted(&buckets[b].ids, id);
            let new_bucket = IdBucket { key: buckets[b].key.clone(), ids: new_ids };
            buckets[b] = new_bucket;
            proof {
                let post = buckets@;
                let bi = b as int;
                assert(post[bi].key@ == key@);
                assert(forall|a: int| 0 <= a < post.len() && a != bi ==> post[a] == pre[a]);
                assert forall|a: int| 0 <= a < post.len() implies bucket_ok(
                    #[trigger] post[a],
                    items_new,
                    key_of,
                ) by {
                    if a == bi {
                        assert forall|k: int| 0 <= k < post[bi].ids@.len() implies
                            #[trigger] post[bi].ids@[k] < items_new.len() && key_of(
                            items_new[post[bi].ids@[k] as int],
                        ) == Some(post[bi].key@) by {
                            let x = post[bi].ids@[k];
                            assert(post[bi].ids@.contains(x));
                            if x == id {
                            } else {
                                assert(pre[bi].ids@.contains(x));
                                let k0 = choose|k0: int|
                                    0 <= k0 < pre[bi].ids@.len() && pre[bi].ids@[k0] == x;
                                assert(pre[bi].ids@[k0] < items_old.len());
                                assert(key_of(items_old[x as int]) == Some(pre[bi].key@));
                                assert(key_of(items_new[x as int]) == key_of(items_old[x as int]));
                            }
                        }
                    } else {
                        assert(bucket_ok(pre[a], items_old, key_of));
                        assert forall|k: int| 0 <= k < post[a].ids@.len() implies
                            #[trigger] post[a].ids@[k] < items_new.len() && key_of(
                            items_new[post[a].ids@[k] as int],
                        ) == Some(post[a].key@) by {
                            assert(pre[a].ids@[k] < items_old.len());
                            assert(pre[a].ids@[k] != id) by {
                                if pre[a].ids@[k] == id {
                                    assert(key_of(items_old[id as int]) == Some(pre[a].key@));
                                    assert(id < items_old.len());
                                }
                            }
                        }
                    }
                }
                assert forall|j: int|
                    0 <= j < items_new.len() && (#[trigger] key_of(items_new[j])) is Some implies
                    exists|a: int|
                    0 <= a < post.len() && post[a].key@ == key_of(items_new[j])->0
                        && post[a].ids@.contains(j as u64) by {
                    if j == id {
                        assert(post[bi].ids@.contains(j as u64));
                        assert(post[bi].key@ == key_of(items_new[j])->0);
                    } else {
                        assert(key_of(items_old[j]) == key_of(items_new[j]));
                        let a = choose|a: int|
                            0 <= a < pre.len() && pre[a].key@ == key_of(items_old[j])->0
                                && pre[a].ids@.contains(j as u64);
                        if a == bi {
                            assert(post[bi].ids@.contains(j as u64));
                            assert(post[bi].key@ == key_of(items_new[j])->0);
                        } else {
                            assert(post[a].key@ == key_of(items_new[j])->0);
                            assert(post[a].ids@.contains(j as u64));
                        }
                    }
                }
            }
        },
        None => {
            let mut ids: Vec<u64> = Vec::new();
            ids.push(id);
            let new_bucket = IdBucket { key: key.clone(), ids };
            buckets.push(new_bucket);
            proof {
                let post = buckets@;
                let bi = post.len() - 1;
                assert(post[bi].key@ == key@);
                assert(post[bi].ids@ =~= seq![id]);
                assert(forall|a: int| 0 <= a < pre.len() ==> post[a] == pre[a]);
                assert forall|a: int, b: int| 0 <= a < b < post.len() implies (
                #[trigger] post[a].key@) != (#[trigger] post[b].key@) by {
                    if b == bi {
                        assert(pre[a].key@ != key@);
                    }
                }
                assert forall|a: int| 0 <= a < post.len() implies bucket_ok(
                    #[trigger] post[a],
                    items_new,
                    key_of,
                ) by {
                    if a == bi {
                        assert(post[bi].ids@[0] == id);
                    } else {
                        assert(bucket_ok(pre[a], items_old, key_of));
                        assert forall|k: int| 0 <= k < post[a].ids@.len() implies
                            #[trigger] post[a].ids@[k] < items_new.len() && key_of(
                            items_new[post[a].ids@[k] as int],
                        ) == Some(post[a].key@) by {
                            assert(pre[a].ids@[k] < items_old.len());
                            assert(pre[a].ids@[k] != id) by {
                                if pre[a].ids@[k] == id {
                                    assert(key_of(items_old[id as int]) == Some(pre[a].key@));
                                    assert(id < items_old.len());
                                }
                            }
                        }
                    }
                }
                assert forall|j: int|
                    0 <= j < items_new.len() && (#[trigger] key_of(items_new[j])) is Some implies
                    exists|a: int|
                    0 <= a < post.len() && post[a].key@ == key_of(items_new[j])->0
                        && post[a].ids@.contains(j as u64) by {
                    if j == id {
                        assert(post[bi].ids@[0] == j as u64);
                        assert(post[bi].ids@.contains(j as u64));
                        assert(post[bi].key@ == key_of(items_new[j])->0);
                    } else {
                        assert(key_of(items_old[j]) == key_of(items_new[j]));
                        let a = choose|a: int|
                            0 <= a < pre.len() && pre[a].key@ == key_of(items_old[j])->0
                                && pre[a].ids@.contains(j as u64);
                        assert(post[a].key@ == key_of(items_new[j])->0);
                        assert(post[a].ids@.contains(j as u64));
                    }
                }
            }
        },
    }
}

} // verus!
