//! Grouping packages by category or by tag: what the index of a collection
//! is, and how it is built.

use vstd::prelude::*;
use vstd::hash_map::StringHashMap;
use crate::gather::gather;
use crate::index::{is_bucket_of, IndexBucket, IndexBucketModel, PositionIndex};
use crate::model::{Package, PackageModel};
use crate::text::Text;

verus! {

/// What packages are grouped by.
#[derive(Debug, Clone, Copy, PartialEq, Eq)]
pub enum Grouping {
    Category,
    Tag,
}

impl Grouping {
    /// The keys under which a package is filed: its category, or its tags.
    pub open spec fn keys(self, package: PackageModel) -> Seq<Text> {
        match self {
            Grouping::Category => seq![package.category],
            Grouping::Tag => package.tags,
        }
    }
}

/// Whether the package at a position is filed under `key`.
pub open spec fn carries(grouping: Grouping, packages: Seq<PackageModel>, key: Text) -> spec_fn(
    int,
) -> bool {
    |i: int| grouping.keys(packages[i]).contains(key)
}

/// The positions below `n` at which `holds` is true, in increasing order.
pub open spec fn positions_where(n: nat, holds: spec_fn(int) -> bool) -> Seq<usize>
    decreases n,
{
    if n == 0 {
        Seq::empty()
    } else if holds(n - 1) {
        positions_where((n - 1) as nat, holds).push((n - 1) as usize)
    } else {
        positions_where((n - 1) as nat, holds)
    }
}

/// The index of `packages` by `grouping`: each key that some package is
/// filed under is mapped to the positions of the packages filed under it, in
/// collection order, each position once.
pub open spec fn grouped(grouping: Grouping, packages: Seq<PackageModel>) -> Map<Text, Seq<usize>> {
    Map::new(
        |key: Text|
            exists|i: int| 0 <= i < packages.len() && #[trigger] carries(grouping, packages, key)(i),
        |key: Text| positions_where(packages.len(), carries(grouping, packages, key)),
    )
}

/// The keys under which the package at a position is filed.
pub open spec fn keys_at(grouping: Grouping, packages: Seq<PackageModel>) -> spec_fn(int) -> Seq<
    Text,
> {
    |i: int| grouping.keys(packages[i])
}

/// The members of `keys`, each once, in the order in which they first occur.
pub open spec fn first_occurrences(keys: Seq<Text>) -> Seq<Text>
    decreases keys.len(),
{
    if keys.len() == 0 {
        Seq::empty()
    } else if first_occurrences(keys.drop_last()).contains(keys.last()) {
        first_occurrences(keys.drop_last())
    } else {
        first_occurrences(keys.drop_last()).push(keys.last())
    }
}

/// The keys of the index of `packages` by `grouping`, in the order of their
/// buckets: the order in which the collection first files a package under
/// them.
pub open spec fn key_order(grouping: Grouping, packages: Seq<PackageModel>) -> Seq<Text> {
    first_occurrences(gather(packages.len(), keys_at(grouping, packages)))
}

/// The buckets of the index of `packages` by `grouping`: one per key, in key
/// order, each with the positions of its key.
pub open spec fn grouped_buckets(grouping: Grouping, packages: Seq<PackageModel>) -> Seq<
    IndexBucketModel,
> {
    Seq::new(
        key_order(grouping, packages).len(),
        |b: int|
            IndexBucketModel {
                key: key_order(grouping, packages)[b],
                positions: grouped(grouping, packages)[key_order(grouping, packages)[b]],
            },
    )
}

/// Every position in `positions_where(n, holds)` is below `n` and satisfies
/// `holds`, every such position is in it, and it is strictly increasing.
pub proof fn lemma_positions_where(n: nat, holds: spec_fn(int) -> bool)
    requires
        n <= usize::MAX,
    ensures
        forall|k: int|
            0 <= k < positions_where(n, holds).len() ==> {
                &&& (#[trigger] positions_where(n, holds)[k]) < n
                &&& holds(positions_where(n, holds)[k] as int)
            },
        forall|i: int|
            0 <= i < n && #[trigger] holds(i) ==> positions_where(n, holds).contains(i as usize),
        forall|k: int, l: int|
            0 <= k < l < positions_where(n, holds).len() ==> positions_where(n, holds)[k]
                < positions_where(n, holds)[l],
        positions_where(n, holds).len() <= n,
    decreases n,
{
    if n > 0 {
        let shorter = positions_where((n - 1) as nat, holds);
        lemma_positions_where((n - 1) as nat, holds);
        let all = positions_where(n, holds);
        assert forall|i: int| 0 <= i < n && #[trigger] holds(i) implies all.contains(
            i as usize,
        ) by {
            if i < n - 1 {
                let k = choose|k: int| 0 <= k < shorter.len() && shorter[k] == i as usize;
                assert(all[k] == i as usize);
            } else {
                assert(all[all.len() - 1] == i as usize);
            }
        }
    }
}

/// The buckets, with the lookup table `slots` from key to bucket, stand for
/// the mapping `filed`.
spec fn represents(
    buckets: Seq<IndexBucket>,
    slots: Map<Text, usize>,
    filed: Map<Text, Seq<usize>>,
) -> bool {
    &&& forall|key: Text| slots.contains_key(key) <==> filed.contains_key(key)
    &&& forall|key: Text| #[trigger]
        filed.contains_key(key) ==> {
            &&& slots[key] < buckets.len()
            &&& buckets[slots[key] as int].key@ == key
            &&& buckets[slots[key] as int].positions@ == filed[key]
        }
    &&& forall|b: int|
        0 <= b < buckets.len() ==> {
            &&& filed.contains_key((#[trigger] buckets[b]).key@)
            &&& slots[buckets[b].key@] == b
        }
}

/// The mapping `filed` after position `i` was filed under `key`: the
/// position is added at the end of the positions of `key`, unless it stands
/// there already.
spec fn recorded(filed: Map<Text, Seq<usize>>, key: Text, i: usize) -> Map<Text, Seq<usize>> {
    if filed.contains_key(key) {
        if filed[key].len() > 0 && filed[key].last() == i {
            filed
        } else {
            filed.insert(key, filed[key].push(i))
        }
    } else {
        filed.insert(key, seq![i])
    }
}

/// The mapping `filed` is the index of the packages below position `i`,
/// with position `i` itself filed under the keys in `done` so far.
spec fn filed_so_far(
    grouping: Grouping,
    packages: Seq<PackageModel>,
    filed: Map<Text, Seq<usize>>,
    i: nat,
    done: Seq<Text>,
) -> bool {
    &&& forall|key: Text| #[trigger]
        filed.contains_key(key) <==> done.contains(key) || exists|p: int|
            0 <= p < i && #[trigger] carries(grouping, packages, key)(p)
    &&& forall|key: Text| #[trigger]
        filed.contains_key(key) ==> filed[key] == positions_where(
            if done.contains(key) {
                i + 1
            } else {
                i
            },
            carries(grouping, packages, key),
        )
}

/// Where nothing below `n` satisfies `holds`, there are no positions.
proof fn lemma_positions_where_none(n: nat, holds: spec_fn(int) -> bool)
    requires
        forall|p: int| 0 <= p < n ==> !#[trigger] holds(p),
    ensures
        positions_where(n, holds) == Seq::<usize>::empty(),
    decreases n,
{
    if n > 0 {
        lemma_positions_where_none((n - 1) as nat, holds);
        assert(!holds(n - 1));
    }
}

/// Filing position `i` under one more of its keys keeps the mapping the
/// index of what was filed.
proof fn lemma_filed_one_more(
    grouping: Grouping,
    packages: Seq<PackageModel>,
    filed: Map<Text, Seq<usize>>,
    i: nat,
    j: int,
)
    requires
        i < packages.len() <= usize::MAX,
        0 <= j < grouping.keys(packages[i as int]).len(),
        filed_so_far(grouping, packages, filed, i, grouping.keys(packages[i as int]).take(j)),
    ensures
        filed_so_far(
            grouping,
            packages,
            recorded(filed, grouping.keys(packages[i as int])[j], i as usize),
            i,
            grouping.keys(packages[i as int]).take(j + 1),
        ),
{
    let keys = grouping.keys(packages[i as int]);
    let key = keys[j];
    let done = keys.take(j);
    let more = keys.take(j + 1);
    let after = recorded(filed, key, i as usize);
    let holds = carries(grouping, packages, key);
    assert(more =~= done.push(key));
    assert(more[j] == key);
    assert(more.contains(key));
    assert forall|other: Text| more.contains(other) <==> done.contains(other) || other == key by {
        if done.contains(other) {
            let d = choose|d: int| 0 <= d < done.len() && done[d] == other;
            assert(more[d] == other);
        }
        if more.contains(other) && other != key {
            let d = choose|d: int| 0 <= d < more.len() && more[d] == other;
            assert(done[d] == other);
        }
    }
    assert(holds(i as int)) by {
        assert(keys.contains(key));
    }
    lemma_positions_where(i, holds);
    if filed.contains_key(key) {
        if done.contains(key) {
            assert(filed[key] == positions_where(i + 1, holds));
            assert(filed[key].last() == i as usize);
            assert(after == filed);
        } else {
            assert(filed[key] == positions_where(i, holds));
            if filed[key].len() > 0 {
                assert(filed[key][filed[key].len() - 1] < i);
            }
            assert(after == filed.insert(key, filed[key].push(i as usize)));
        }
    } else {
        assert forall|p: int| 0 <= p < i implies !#[trigger] holds(p) by {}
        lemma_positions_where_none(i, holds);
        assert(positions_where(i + 1, holds) =~= seq![i as usize]);
    }
    assert forall|other: Text| #[trigger]
        after.contains_key(other) <==> more.contains(other) || exists|p: int|
            0 <= p < i && #[trigger] carries(grouping, packages, other)(p) by {
        assert(after.contains_key(other) <==> filed.contains_key(other) || other == key);
    }
    assert forall|other: Text| #[trigger] after.contains_key(other) implies after[other]
        == positions_where(
        if more.contains(other) {
            i + 1
        } else {
            i
        },
        carries(grouping, packages, other),
    ) by {
        if other != key {
            assert(filed.contains_key(other));
            assert(after[other] == filed[other]);
        }
    }
}

/// Once position `i` is filed under all its keys, the mapping is the index
/// of the packages below position `i + 1`.
proof fn lemma_filed_next(
    grouping: Grouping,
    packages: Seq<PackageModel>,
    filed: Map<Text, Seq<usize>>,
    i: nat,
)
    requires
        i < packages.len(),
        filed_so_far(grouping, packages, filed, i, grouping.keys(packages[i as int])),
    ensures
        filed_so_far(grouping, packages, filed, i + 1, Seq::empty()),
{
    let keys = grouping.keys(packages[i as int]);
    let none = Seq::<Text>::empty();
    assert forall|key: Text| #[trigger]
        filed.contains_key(key) <==> none.contains(key) || exists|p: int|
            0 <= p < i + 1 && #[trigger] carries(grouping, packages, key)(p) by {
        let holds = carries(grouping, packages, key);
        if filed.contains_key(key) {
            if keys.contains(key) {
                assert(holds(i as int));
            } else {
                let p = choose|p: int| 0 <= p < i && #[trigger] carries(grouping, packages, key)(p);
                assert(0 <= p < i + 1 && carries(grouping, packages, key)(p));
            }
        }
        if exists|p: int| 0 <= p < i + 1 && #[trigger] carries(grouping, packages, key)(p) {
            let p = choose|p: int| 0 <= p < i + 1 && #[trigger] carries(grouping, packages, key)(p);
            if p == i {
                assert(keys.contains(key));
            } else {
                assert(0 <= p < i && carries(grouping, packages, key)(p));
            }
        }
    }
    assert forall|key: Text| #[trigger] filed.contains_key(key) implies filed[key]
        == positions_where((i + 1) as nat, carries(grouping, packages, key)) by {
        let holds = carries(grouping, packages, key);
        if !keys.contains(key) {
            assert(!holds(i as int));
        }
    }
}

/// The mapping that is the index of all packages is `grouped`.
proof fn lemma_filed_all(
    grouping: Grouping,
    packages: Seq<PackageModel>,
    filed: Map<Text, Seq<usize>>,
)
    requires
        filed_so_far(grouping, packages, filed, packages.len(), Seq::empty()),
    ensures
        filed == grouped(grouping, packages),
{
    let none = Seq::<Text>::empty();
    assert forall|key: Text| filed.contains_key(key) == grouped(grouping, packages).contains_key(
        key,
    ) by {
        assert(!none.contains(key));
    }
    assert forall|key: Text| #[trigger] filed.contains_key(key) implies filed[key] == grouped(
        grouping,
        packages,
    )[key] by {
        assert(!none.contains(key));
    }
    assert(filed =~= grouped(grouping, packages));
}

/// The keys of the buckets, in order.
spec fn bucket_keys(buckets: Seq<IndexBucket>) -> Seq<Text> {
    Seq::new(buckets.len(), |b: int| buckets[b].key@)
}

/// The first occurrences of a sequence hold what the sequence holds.
proof fn lemma_first_occurrences(keys: Seq<Text>, key: Text)
    ensures
        first_occurrences(keys).contains(key) <==> keys.contains(key),
    decreases keys.len(),
{
    if keys.len() > 0 {
        let earlier = keys.drop_last();
        let firsts = first_occurrences(earlier);
        lemma_first_occurrences(earlier, key);
        if keys.contains(key) {
            let k = choose|k: int| 0 <= k < keys.len() && keys[k] == key;
            if k < keys.len() - 1 {
                assert(earlier[k] == key);
                let f = choose|f: int| 0 <= f < firsts.len() && firsts[f] == key;
                assert(first_occurrences(keys)[f] == key);
            } else if !firsts.contains(key) {
                assert(first_occurrences(keys)[firsts.len() as int] == key);
            }
        }
        if first_occurrences(keys).contains(key) {
            let f = choose|f: int|
                0 <= f < first_occurrences(keys).len() && first_occurrences(keys)[f] == key;
            if f < firsts.len() {
                assert(firsts[f] == key);
                let k = choose|k: int| 0 <= k < earlier.len() && earlier[k] == key;
                assert(keys[k] == key);
            } else {
                assert(keys[keys.len() - 1] == key);
            }
        }
    }
}

/// One more key: it gets a bucket of its own exactly when it is new.
proof fn lemma_first_occurrences_push(keys: Seq<Text>, key: Text)
    ensures
        first_occurrences(keys.push(key)) == (if keys.contains(key) {
            first_occurrences(keys)
        } else {
            first_occurrences(keys).push(key)
        }),
{
    lemma_first_occurrences(keys, key);
    assert(keys.push(key).drop_last() =~= keys);
}

/// Files position `i` under `key`.
fn record(
    buckets: &mut Vec<IndexBucket>,
    slots: &mut StringHashMap<usize>,
    key: &String,
    i: usize,
    Ghost(filed): Ghost<Map<Text, Seq<usize>>>,
)
    requires
        represents(old(buckets)@, old(slots)@, filed),
    ensures
        represents(final(buckets)@, final(slots)@, recorded(filed, key@, i)),
        bucket_keys(final(buckets)@) == (if filed.contains_key(key@) {
            bucket_keys(old(buckets)@)
        } else {
            bucket_keys(old(buckets)@).push(key@)
        }),
{
    let ghost before = buckets@;
    match slots.get(key.as_str()) {
        Some(slot) => {
            let b: usize = *slot;
            let count: usize = buckets[b].positions.len();
            if count == 0 || buckets[b].positions[count - 1] != i {
                let mut bucket = IndexBucket { key: String::new(), positions: Vec::new() };
                std::mem::swap(&mut bucket, &mut buckets[b]);
                bucket.positions.push(i);
                buckets.set(b, bucket);
                proof {
                    let after = recorded(filed, key@, i);
                    assert forall|other: Text| #[trigger] after.contains_key(other) implies {
                        &&& slots@[other] < buckets@.len()
                        &&& buckets@[slots@[other] as int].key@ == other
                        &&& buckets@[slots@[other] as int].positions@ == after[other]
                    } by {
                        assert(filed.contains_key(other));
                        if other != key@ {
                            assert(slots@[other] != b);
                        }
                    }
                    assert forall|c: int| 0 <= c < buckets@.len() implies {
                        &&& after.contains_key((#[trigger] buckets@[c]).key@)
                        &&& slots@[buckets@[c].key@] == c
                    } by {
                        assert(before[c].key@ == buckets@[c].key@);
                    }
                    assert(bucket_keys(buckets@) =~= bucket_keys(before)) by {
                        assert forall|c: int| 0 <= c < buckets@.len() implies bucket_keys(
                            buckets@,
                        )[c] == bucket_keys(before)[c] by {
                            assert(before[c].key@ == buckets@[c].key@);
                        }
                    }
                }
            }
        },
        None => {
            let slot: usize = buckets.len();
            let mut positions: Vec<usize> = Vec::new();
            positions.push(i);
            slots.insert(key.clone(), slot);
            buckets.push(IndexBucket { key: key.clone(), positions });
            proof {
                let after = recorded(filed, key@, i);
                assert(buckets@[slot as int].positions@ =~= seq![i]);
                assert forall|other: Text| #[trigger] after.contains_key(other) implies {
                    &&& slots@[other] < buckets@.len()
                    &&& buckets@[slots@[other] as int].key@ == other
                    &&& buckets@[slots@[other] as int].positions@ == after[other]
                } by {
                    if other != key@ {
                        assert(filed.contains_key(other));
                        assert(buckets@[slots@[other] as int] == before[slots@[other] as int]);
                    }
                }
                assert forall|c: int| 0 <= c < buckets@.len() implies {
                    &&& after.contains_key((#[trigger] buckets@[c]).key@)
                    &&& slots@[buckets@[c].key@] == c
                } by {
                    if c < slot {
                        assert(buckets@[c] == before[c]);
                        assert(filed.contains_key(before[c].key@));
                    }
                }
                assert(bucket_keys(buckets@) =~= bucket_keys(before).push(key@));
            }
        },
    }
}

/// Filing under one more key keeps the keys seen and the keys filed the
/// same.
proof fn lemma_seen_one_more(seen: Seq<Text>, filed: Map<Text, Seq<usize>>, key: Text, i: usize)
    requires
        forall|other: Text| seen.contains(other) <==> filed.contains_key(other),
    ensures
        forall|other: Text|
            seen.push(key).contains(other) <==> recorded(filed, key, i).contains_key(other),
{
    let more = seen.push(key);
    assert forall|other: Text| more.contains(other) <==> recorded(filed, key, i).contains_key(
        other,
    ) by {
        if seen.contains(other) {
            let k = choose|k: int| 0 <= k < seen.len() && seen[k] == other;
            assert(more[k] == other);
        }
        if other == key {
            assert(more[seen.len() as int] == other);
        }
        if more.contains(other) && other != key {
            let k = choose|k: int| 0 <= k < more.len() && more[k] == other;
            assert(seen[k] == other);
        }
    }
}

/// An index without repeated keys is determined by its mapping and the order
/// of its keys.
proof fn lemma_buckets_determined(
    index: &PositionIndex,
    grouping: Grouping,
    packages: Seq<PackageModel>,
)
    requires
        index.wf(),
        index@ == grouped(grouping, packages),
        index.keys() == key_order(grouping, packages),
    ensures
        index.deep_view() == grouped_buckets(grouping, packages),
{
    let buckets = index.buckets@;
    assert(index.keys().len() == buckets.len());
    assert forall|b: int| 0 <= b < buckets.len() implies index.deep_view()[b] == grouped_buckets(
        grouping,
        packages,
    )[b] by {
        let key = buckets[b].key@;
        assert(index.keys()[b] == key);
        assert(is_bucket_of(buckets, key, b)) by {
            assert forall|k: int| 0 <= k < b implies (#[trigger] buckets[k]).key@ != key by {}
        }
        let chosen = choose|c: int| is_bucket_of(buckets, key, c);
        assert(is_bucket_of(buckets, key, chosen));
        if chosen < b {
            assert(buckets[chosen].key@ != key);
        } else if b < chosen {
            assert(buckets[b].key@ != key);
        }
        assert(index@[key] == buckets[b].positions@);
        assert(index.deep_view()[b] == buckets[b].deep_view());
    }
    assert(index.deep_view() =~= grouped_buckets(grouping, packages));
}

/// Builds the index of `packages` by `grouping`.
pub fn build_index(grouping: Grouping, packages: &Vec<Package>) -> (index: PositionIndex)
    ensures
        index.wf(),
        index@ == grouped(grouping, packages.deep_view()),
        index.keys() == key_order(grouping, packages.deep_view()),
        index.deep_view() == grouped_buckets(grouping, packages.deep_view()),
{
    let ghost models = packages.deep_view();
    let ghost all = keys_at(grouping, models);
    let mut buckets: Vec<IndexBucket> = Vec::new();
    let mut slots: StringHashMap<usize> = StringHashMap::new();
    let ghost mut filed: Map<Text, Seq<usize>> = Map::empty();
    let ghost mut seen: Seq<Text> = Seq::empty();
    proof {
        assert(bucket_keys(buckets@) =~= first_occurrences(seen));
    }
    let mut i: usize = 0;
    while i < packages.len()
        invariant
            i <= packages.len(),
            models == packages.deep_view(),
            all == keys_at(grouping, models),
            represents(buckets@, slots@, filed),
            filed_so_far(grouping, models, filed, i as nat, Seq::empty()),
            seen == gather(i as nat, all),
            forall|key: Text| seen.contains(key) <==> filed.contains_key(key),
            bucket_keys(buckets@) == first_occurrences(seen),
        decreases packages.len() - i,
    {
        let package = &packages[i];
        let ghost keys = grouping.keys(models[i as int]);
        let ghost earlier = seen;
        assert(models[i as int] == package.deep_view());
        assert(keys.take(0) =~= Seq::<Text>::empty());
        assert(earlier + keys.take(0) =~= seen);
        match grouping {
            Grouping::Category => {
                record(&mut buckets, &mut slots, &package.category, i, Ghost(filed));
                proof {
                    lemma_filed_one_more(grouping, models, filed, i as nat, 0);
                    lemma_first_occurrences_push(seen, keys[0]);
                    lemma_seen_one_more(seen, filed, keys[0], i);
                    filed = recorded(filed, keys[0], i);
                    seen = seen.push(keys[0]);
                    assert(keys.take(1) =~= keys);
                    assert(seen =~= earlier + keys);
                }
            },
            Grouping::Tag => {
                let mut j: usize = 0;
                while j < package.tags.len()
                    invariant
                        j <= package.tags.len(),
                        i < packages.len(),
                        models == packages.deep_view(),
                        models[i as int] == package.deep_view(),
                        grouping is Tag,
                        keys == grouping.keys(models[i as int]),
                        represents(buckets@, slots@, filed),
                        filed_so_far(grouping, models, filed, i as nat, keys.take(j as int)),
                        seen == earlier + keys.take(j as int),
                        forall|key: Text| seen.contains(key) <==> filed.contains_key(key),
                        bucket_keys(buckets@) == first_occurrences(seen),
                    decreases package.tags.len() - j,
                {
                    assert(keys[j as int] == package.tags[j as int]@);
                    record(&mut buckets, &mut slots, &package.tags[j], i, Ghost(filed));
                    proof {
                        lemma_filed_one_more(grouping, models, filed, i as nat, j as int);
                        lemma_first_occurrences_push(seen, keys[j as int]);
                        lemma_seen_one_more(seen, filed, keys[j as int], i);
                        filed = recorded(filed, keys[j as int], i);
                        seen = seen.push(keys[j as int]);
                        assert(seen =~= earlier + keys.take(j + 1));
                    }
                    j += 1;
                }
                assert(keys.take(package.tags.len() as int) =~= keys);
            },
        }
        proof {
            lemma_filed_next(grouping, models, filed, i as nat);
            assert(all(i as int) == keys);
        }
        i += 1;
    }
    let index = PositionIndex { buckets };
    proof {
        lemma_filed_all(grouping, models, filed);
        assert forall|a: int, b: int| 0 <= a < b < index.buckets@.len() implies (
        #[trigger] index.buckets@[a]).key@ != (#[trigger] index.buckets@[b]).key@ by {
            assert(slots@[index.buckets@[a].key@] == a);
            assert(slots@[index.buckets@[b].key@] == b);
        }
        assert forall|key: Text| index@.contains_key(key) == filed.contains_key(key) by {
            if index@.contains_key(key) {
                let b = choose|b: int| is_bucket_of(index.buckets@, key, b);
                assert(filed.contains_key(index.buckets@[b].key@));
            }
            if filed.contains_key(key) {
                assert forall|k: int| 0 <= k < slots@[key] implies (
                #[trigger] index.buckets@[k]).key@ != key by {
                    assert(slots@[index.buckets@[k].key@] == k);
                }
                assert(is_bucket_of(index.buckets@, key, slots@[key] as int));
            }
        }
        assert forall|key: Text| #[trigger] index@.contains_key(key) implies index@[key]
            == filed[key] by {
            let b = choose|b: int| is_bucket_of(index.buckets@, key, b);
            assert(slots@[index.buckets@[b].key@] == b);
        }
        assert(index@ =~= filed);
        assert(index.keys() =~= bucket_keys(index.buckets@));
        lemma_buckets_determined(&index, grouping, models);
    }
    index
}

/// Builds the index by category: each category is mapped to the positions of
/// the packages of that category, in collection order.
pub fn build_category_index(packages: &Vec<Package>) -> (index: PositionIndex)
    ensures
        index.wf(),
        index@ == grouped(Grouping::Category, packages.deep_view()),
        index.deep_view() == grouped_buckets(Grouping::Category, packages.deep_view()),
{
    build_index(Grouping::Category, packages)
}

/// Builds the index by tag: each tag is mapped to the positions of the
/// packages that carry it, in collection order.
pub fn build_tag_index(packages: &Vec<Package>) -> (index: PositionIndex)
    ensures
        index.wf(),
        index@ == grouped(Grouping::Tag, packages.deep_view()),
        index.deep_view() == grouped_buckets(Grouping::Tag, packages.deep_view()),
{
    build_index(Grouping::Tag, packages)
}

/// Index correctness, by category and by tag: the index holds a key exactly
/// when some package is filed under it.
pub proof fn lemma_grouped_keys(grouping: Grouping, packages: Seq<PackageModel>, key: Text)
    ensures
        grouped(grouping, packages).contains_key(key) <==> exists|i: int|
            0 <= i < packages.len() && grouping.keys(#[trigger] packages[i]).contains(key),
{
    if grouped(grouping, packages).contains_key(key) {
        let i = choose|i: int| 0 <= i < packages.len() && #[trigger] carries(
            grouping,
            packages,
            key,
        )(i);
        assert(grouping.keys(packages[i]).contains(key));
    }
    if exists|i: int|
        0 <= i < packages.len() && grouping.keys(#[trigger] packages[i]).contains(key) {
        let i = choose|i: int|
            0 <= i < packages.len() && grouping.keys(#[trigger] packages[i]).contains(key);
        assert(carries(grouping, packages, key)(i));
    }
}

/// Index correctness, by category and by tag: the positions of a key of the
/// index are exactly the positions of the packages filed under it, each
/// once, in collection order.
pub proof fn lemma_grouped_positions(grouping: Grouping, packages: Seq<PackageModel>, key: Text)
    requires
        packages.len() <= usize::MAX,
        grouped(grouping, packages).contains_key(key),
    ensures
        forall|i: int|
            0 <= i < packages.len() && grouping.keys(#[trigger] packages[i]).contains(key)
                ==> grouped(grouping, packages)[key].contains(i as usize),
        forall|k: int|
            0 <= k < grouped(grouping, packages)[key].len() ==> {
                &&& (#[trigger] grouped(grouping, packages)[key][k]) < packages.len()
                &&& grouping.keys(packages[grouped(grouping, packages)[key][k] as int]).contains(
                    key,
                )
            },
        forall|k: int, l: int|
            0 <= k < l < grouped(grouping, packages)[key].len() ==> grouped(
                grouping,
                packages,
            )[key][k] < grouped(grouping, packages)[key][l],
{
    let holds = carries(grouping, packages, key);
    lemma_positions_where(packages.len(), holds);
    assert forall|i: int|
        0 <= i < packages.len() && grouping.keys(#[trigger] packages[i]).contains(
            key,
        ) implies grouped(grouping, packages)[key].contains(i as usize) by {
        assert(holds(i));
    }
}

/// The number of positions that the buckets hold, all buckets together.
pub open spec fn filed_count(buckets: Seq<IndexBucketModel>) -> nat
    decreases buckets.len(),
{
    if buckets.len() == 0 {
        0
    } else {
        filed_count(buckets.drop_last()) + buckets.last().positions.len()
    }
}

/// What is joined position by position depends on the positions alone.
proof fn lemma_gather_same<B>(n: nat, at: spec_fn(int) -> Seq<B>, other: spec_fn(int) -> Seq<B>)
    requires
        forall|i: int| 0 <= i < n ==> #[trigger] at(i) == other(i),
    ensures
        gather(n, at) == gather(n, other),
    decreases n,
{
    if n > 0 {
        lemma_gather_same((n - 1) as nat, at, other);
        assert(at(n - 1) == other(n - 1));
    }
}

/// The positions at which something holds depend on those positions alone.
proof fn lemma_positions_where_same(
    n: nat,
    holds: spec_fn(int) -> bool,
    other: spec_fn(int) -> bool,
)
    requires
        forall|i: int| 0 <= i < n ==> #[trigger] holds(i) == other(i),
    ensures
        positions_where(n, holds) == positions_where(n, other),
    decreases n,
{
    if n > 0 {
        lemma_positions_where_same((n - 1) as nat, holds, other);
        assert(holds(n - 1) == other(n - 1));
    }
}

/// No key stands twice among the first occurrences.
proof fn lemma_first_occurrences_distinct(keys: Seq<Text>)
    ensures
        forall|a: int, b: int|
            0 <= a < b < first_occurrences(keys).len() ==> first_occurrences(keys)[a]
                != first_occurrences(keys)[b],
    decreases keys.len(),
{
    if keys.len() > 0 {
        let firsts = first_occurrences(keys.drop_last());
        lemma_first_occurrences_distinct(keys.drop_last());
        if !firsts.contains(keys.last()) {
            assert forall|a: int, b: int|
                0 <= a < b < first_occurrences(keys).len() implies first_occurrences(keys)[a]
                != first_occurrences(keys)[b] by {
                if b == firsts.len() {
                    if firsts[a] == keys.last() {
                        assert(firsts.contains(keys.last()));
                    }
                }
            }
        }
    }
}

/// Where one bucket gains one position and the others keep theirs, the
/// buckets hold one position more.
proof fn lemma_filed_count_one_more(
    before: Seq<IndexBucketModel>,
    after: Seq<IndexBucketModel>,
    gaining: int,
)
    requires
        before.len() == after.len(),
        0 <= gaining < before.len(),
        after[gaining].positions.len() == before[gaining].positions.len() + 1,
        forall|b: int|
            0 <= b < before.len() && b != gaining ==> (#[trigger] after[b]).positions.len()
                == before[b].positions.len(),
    ensures
        filed_count(after) == filed_count(before) + 1,
    decreases before.len(),
{
    let last = before.len() - 1;
    if gaining == last {
        lemma_filed_count_same(before.drop_last(), after.drop_last());
    } else {
        assert(after.drop_last()[gaining] == after[gaining]);
        assert(before.drop_last()[gaining] == before[gaining]);
        assert forall|b: int|
            0 <= b < before.drop_last().len() && b != gaining implies (
        #[trigger] after.drop_last()[b]).positions.len() == before.drop_last()[b].positions.len() by {
            assert(after.drop_last()[b] == after[b]);
        }
        lemma_filed_count_one_more(before.drop_last(), after.drop_last(), gaining);
        assert(after[last].positions.len() == before[last].positions.len());
    }
}

/// Buckets of the same sizes hold the same number of positions.
proof fn lemma_filed_count_same(before: Seq<IndexBucketModel>, after: Seq<IndexBucketModel>)
    requires
        before.len() == after.len(),
        forall|b: int|
            0 <= b < before.len() ==> (#[trigger] after[b]).positions.len()
                == before[b].positions.len(),
    ensures
        filed_count(after) == filed_count(before),
    decreases before.len(),
{
    if before.len() > 0 {
        assert forall|b: int| 0 <= b < before.drop_last().len() implies (
        #[trigger] after.drop_last()[b]).positions.len() == before.drop_last()[b].positions.len() by {
            assert(after.drop_last()[b] == after[b]);
        }
        lemma_filed_count_same(before.drop_last(), after.drop_last());
        assert(after[before.len() - 1].positions.len() == before[before.len() - 1].positions.len());
    }
}

/// Index correctness, by category: every package is filed under one
/// category, so the buckets of the index by category hold as many positions
/// as there are packages.
pub proof fn lemma_categories_partition(packages: Seq<PackageModel>)
    requires
        packages.len() <= usize::MAX,
    ensures
        filed_count(grouped_buckets(Grouping::Category, packages)) == packages.len(),
    decreases packages.len(),
{
    let grouping = Grouping::Category;
    if packages.len() == 0 {
        assert(gather(0, keys_at(grouping, packages)) =~= Seq::<Text>::empty());
        assert(grouped_buckets(grouping, packages).len() == 0);
    } else {
        let n = (packages.len() - 1) as nat;
        let earlier = packages.drop_last();
        let category = packages.last().category;
        lemma_categories_partition(earlier);
        let before = grouped_buckets(grouping, earlier);
        let after = grouped_buckets(grouping, packages);
        let keys = key_order(grouping, earlier);
        let all = gather(n, keys_at(grouping, earlier));
        // The keys: those of the earlier packages, and the category of the
        // last one where it is new.
        assert forall|i: int| 0 <= i < n implies #[trigger] keys_at(grouping, packages)(i)
            == keys_at(grouping, earlier)(i) by {
            assert(packages[i] == earlier[i]);
        }
        lemma_gather_same(n, keys_at(grouping, packages), keys_at(grouping, earlier));
        assert(gather(packages.len(), keys_at(grouping, packages)) =~= all.push(category));
        lemma_first_occurrences_push(all, category);
        lemma_first_occurrences(all, category);
        lemma_first_occurrences_distinct(all);
        // The positions of a key: those among the earlier packages, and the
        // last position where the key is the category of the last package.
        assert forall|key: Text|
            positions_where(packages.len(), carries(grouping, packages, key)) == (if key
                == category {
                positions_where(n, carries(grouping, earlier, key)).push(n as usize)
            } else {
                positions_where(n, carries(grouping, earlier, key))
            }) by {
            let holds = carries(grouping, packages, key);
            let held = carries(grouping, earlier, key);
            assert forall|i: int| 0 <= i < n implies #[trigger] holds(i) == held(i) by {
                assert(packages[i] == earlier[i]);
            }
            lemma_positions_where_same(n, holds, held);
            assert(seq![category].contains(key) <==> key == category) by {
                if key == category {
                    assert(seq![category][0] == key);
                }
            }
            assert(holds(n as int) == (key == category));
        }
        // Every key of the order is a key of the index.
        assert forall|b: int| 0 <= b < keys.len() implies #[trigger] grouped(
            grouping,
            earlier,
        ).contains_key(keys[b]) && grouped(grouping, packages).contains_key(keys[b]) by {
            lemma_first_occurrences(all, keys[b]);
            assert(keys.contains(keys[b]));
            crate::gather::lemma_gather_contains(n, keys_at(grouping, earlier), keys[b]);
            lemma_key_is_carried(grouping, earlier, keys[b]);
            let i = choose|i: int|
                0 <= i < earlier.len() && #[trigger] carries(grouping, earlier, keys[b])(i);
            assert(packages[i] == earlier[i]);
            assert(carries(grouping, packages, keys[b])(i));
        }
        assert(carries(grouping, packages, category)(n as int)) by {
            assert(seq![category][0] == category);
        }
        assert(grouped(grouping, packages).contains_key(category));
        if all.contains(category) {
            let gaining = choose|b: int| 0 <= b < keys.len() && keys[b] == category;
            assert(after.len() == before.len());
            assert forall|b: int| 0 <= b < before.len() && b != gaining implies (
            #[trigger] after[b]).positions.len() == before[b].positions.len() by {
                assert(keys[b] != category);
                assert(grouped(grouping, earlier).contains_key(keys[b]));
            }
            assert(grouped(grouping, earlier).contains_key(keys[gaining]));
            lemma_filed_count_one_more(before, after, gaining);
        } else {
            assert(after.len() == before.len() + 1);
            assert forall|p: int| 0 <= p < n implies !#[trigger] carries(
                grouping,
                earlier,
                category,
            )(p) by {
                if carries(grouping, earlier, category)(p) {
                    assert(keys_at(grouping, earlier)(p).contains(category));
                    crate::gather::lemma_gather_contains(n, keys_at(grouping, earlier), category);
                }
            }
            lemma_positions_where_none(n, carries(grouping, earlier, category));
            assert(after.last().positions.len() == 1);
            assert forall|b: int| 0 <= b < before.len() implies (
            #[trigger] after.drop_last()[b]).positions.len() == before[b].positions.len() by {
                assert(after.drop_last()[b] == after[b]);
                assert(keys[b] != category) by {
                    if keys[b] == category {
                        assert(keys.contains(category));
                    }
                }
                assert(grouped(grouping, earlier).contains_key(keys[b]));
            }
            lemma_filed_count_same(before, after.drop_last());
        }
    }
}

/// A key among the keys of the packages is carried by one of them.
proof fn lemma_key_is_carried(grouping: Grouping, packages: Seq<PackageModel>, key: Text)
    requires
        exists|i: int|
            0 <= i < packages.len() && (#[trigger] keys_at(grouping, packages)(i)).contains(key),
    ensures
        exists|i: int| 0 <= i < packages.len() && #[trigger] carries(grouping, packages, key)(i),
{
    let i = choose|i: int|
        0 <= i < packages.len() && (#[trigger] keys_at(grouping, packages)(i)).contains(key);
    assert(carries(grouping, packages, key)(i));
}

} // verus!
