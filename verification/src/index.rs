//! The three indexes of the database. Each refers to packages by their
//! position in the collection.

use vstd::prelude::*;
use vstd::string::*;
use crate::model::{Package, PackageModel};
use crate::text::Text;

verus! {

/// One entry of the name index: the package called `name` stands at
/// `position`.
#[derive(Debug, Clone, PartialEq, Eq)]
pub struct NameEntry {
    pub name: String,
    pub position: usize,
}

/// The index by name: one entry per package, in collection order. Where a
/// name occurs more than once, its last entry counts.
#[derive(Debug, Clone, PartialEq, Eq)]
pub struct NameIndex {
    pub entries: Vec<NameEntry>,
}

/// One bucket of an index by category or by tag: the packages at `positions`
/// have the category, or carry the tag, `key`.
#[derive(Debug, Clone, PartialEq, Eq)]
pub struct IndexBucket {
    pub key: String,
    pub positions: Vec<usize>,
}

/// An index by category or by tag: one bucket per key, in the order in which
/// the keys first occur in the collection.
#[derive(Debug, Clone, PartialEq, Eq)]
pub struct PositionIndex {
    pub buckets: Vec<IndexBucket>,
}

/// The model of [`NameEntry`].
pub struct NameEntryModel {
    pub name: Text,
    pub position: usize,
}

/// The model of [`IndexBucket`].
pub struct IndexBucketModel {
    pub key: Text,
    pub positions: Seq<usize>,
}

impl DeepView for NameEntry {
    type V = NameEntryModel;

    open spec fn deep_view(&self) -> NameEntryModel {
        NameEntryModel { name: self.name@, position: self.position }
    }
}

impl DeepView for NameIndex {
    type V = Seq<NameEntryModel>;

    open spec fn deep_view(&self) -> Seq<NameEntryModel> {
        self.entries.deep_view()
    }
}

impl DeepView for IndexBucket {
    type V = IndexBucketModel;

    open spec fn deep_view(&self) -> IndexBucketModel {
        IndexBucketModel { key: self.key@, positions: self.positions@ }
    }
}

impl DeepView for PositionIndex {
    type V = Seq<IndexBucketModel>;

    open spec fn deep_view(&self) -> Seq<IndexBucketModel> {
        self.buckets.deep_view()
    }
}

/// The entries of the index of `packages` by name: one per package, in
/// collection order.
pub open spec fn named_entries(packages: Seq<PackageModel>) -> Seq<NameEntryModel> {
    Seq::new(
        packages.len(),
        |i: int| NameEntryModel { name: packages[i].name, position: i as usize },
    )
}

/// Position `i` is the last at which a package called `name` stands.
pub open spec fn is_last_with_name(packages: Seq<PackageModel>, name: Text, i: int) -> bool {
    &&& 0 <= i < packages.len()
    &&& packages[i].name == name
    &&& forall|k: int| i < k < packages.len() ==> (#[trigger] packages[k]).name != name
}

/// The index of `packages` by name: each name that some package has is
/// mapped to the last position at which a package of that name stands.
pub open spec fn named(packages: Seq<PackageModel>) -> Map<Text, usize> {
    Map::new(
        |name: Text| exists|i: int| 0 <= i < packages.len() && (#[trigger] packages[i]).name == name,
        |name: Text| (choose|i: int| is_last_with_name(packages, name, i)) as usize,
    )
}

/// Entry `e` is the last of `entries` for `name`.
pub open spec fn is_last_entry(entries: Seq<NameEntry>, name: Text, e: int) -> bool {
    &&& 0 <= e < entries.len()
    &&& entries[e].name@ == name
    &&& forall|k: int| e < k < entries.len() ==> (#[trigger] entries[k]).name@ != name
}

impl View for NameIndex {
    type V = Map<Text, usize>;

    /// The mapping that the entries stand for: from each name that has an
    /// entry to the position in its last entry.
    open spec fn view(&self) -> Map<Text, usize> {
        Map::new(
            |name: Text|
                exists|e: int| 0 <= e < self.entries@.len() && (#[trigger] self.entries@[e]).name@
                    == name,
            |name: Text|
                self.entries@[choose|e: int| is_last_entry(self.entries@, name, e)].position,
        )
    }
}

/// Bucket `b` is the bucket of `key`: the first whose key is `key`.
pub open spec fn is_bucket_of(buckets: Seq<IndexBucket>, key: Text, b: int) -> bool {
    &&& 0 <= b < buckets.len()
    &&& buckets[b].key@ == key
    &&& forall|k: int| 0 <= k < b ==> (#[trigger] buckets[k]).key@ != key
}

impl PositionIndex {
    /// The keys of the buckets, in order.
    pub open spec fn keys(&self) -> Seq<Text> {
        Seq::new(self.buckets@.len(), |b: int| self.buckets@[b].key@)
    }

    /// No two buckets have the same key.
    pub open spec fn wf(&self) -> bool {
        forall|a: int, b: int|
            0 <= a < b < self.buckets@.len() ==> (#[trigger] self.buckets@[a]).key@ != (
            #[trigger] self.buckets@[b]).key@
    }
}

impl View for PositionIndex {
    type V = Map<Text, Seq<usize>>;

    /// The mapping that the buckets stand for: from each key that has a
    /// bucket to the positions in its first bucket.
    open spec fn view(&self) -> Map<Text, Seq<usize>> {
        Map::new(
            |key: Text| exists|b: int| is_bucket_of(self.buckets@, key, b),
            |key: Text| self.buckets@[choose|b: int| is_bucket_of(self.buckets@, key, b)].positions@,
        )
    }
}

/// Among the positions of a name there is a last one.
proof fn lemma_last_with_name_exists(packages: Seq<PackageModel>, name: Text, i: int) -> (last: int)
    requires
        0 <= i < packages.len(),
        packages[i].name == name,
    ensures
        is_last_with_name(packages, name, last),
    decreases packages.len() - i,
{
    if exists|k: int| i < k < packages.len() && (#[trigger] packages[k]).name == name {
        let k = choose|k: int| i < k < packages.len() && (#[trigger] packages[k]).name == name;
        lemma_last_with_name_exists(packages, name, k)
    } else {
        i
    }
}

/// Index correctness, by name: in a collection without duplicate names, the
/// index by name maps the name of each package to the position of that
/// package, and holds no other name.
pub proof fn lemma_named_positions(packages: Seq<PackageModel>)
    requires
        packages.len() <= usize::MAX,
        crate::uniqueness::names_unique(packages),
    ensures
        forall|i: int|
            0 <= i < packages.len() ==> {
                &&& named(packages).contains_key((#[trigger] packages[i]).name)
                &&& named(packages)[packages[i].name] == i
            },
        forall|name: Text| #[trigger]
            named(packages).contains_key(name) ==> crate::closure::declares(packages, name),
{
    assert forall|i: int| 0 <= i < packages.len() implies {
        &&& named(packages).contains_key((#[trigger] packages[i]).name)
        &&& named(packages)[packages[i].name] == i
    } by {
        let name = packages[i].name;
        let last = choose|k: int| is_last_with_name(packages, name, k);
        assert(is_last_with_name(packages, name, i));
        if last < i {
            assert(packages[last].name != packages[i].name);
        } else if i < last {
            assert(packages[i].name != packages[last].name);
        }
    }
}

/// Without the assumption of uniqueness: the index by name holds exactly the
/// names of the collection and maps each to the last position of that name.
pub proof fn lemma_named_last(packages: Seq<PackageModel>, name: Text)
    requires
        packages.len() <= usize::MAX,
        crate::closure::declares(packages, name),
    ensures
        named(packages).contains_key(name),
        is_last_with_name(packages, name, named(packages)[name] as int),
{
    let i = choose|i: int| 0 <= i < packages.len() && (#[trigger] packages[i]).name == name;
    let last = lemma_last_with_name_exists(packages, name, i);
    let chosen = choose|k: int| is_last_with_name(packages, name, k);
    assert(is_last_with_name(packages, name, chosen));
}

/// Builds the index by name: one entry per package, in collection order.
pub fn build_name_index(packages: &Vec<Package>) -> (index: NameIndex)
    ensures
        index@ == named(packages.deep_view()),
        index.deep_view() == named_entries(packages.deep_view()),
{
    let mut entries: Vec<NameEntry> = Vec::new();
    let mut i: usize = 0;
    while i < packages.len()
        invariant
            i <= packages.len(),
            entries@.len() == i,
            forall|k: int|
                0 <= k < i ==> {
                    &&& (#[trigger] entries@[k]).name@ == packages.deep_view()[k].name
                    &&& entries@[k].position == k
                },
        decreases packages.len() - i,
    {
        assert(packages.deep_view()[i as int] == packages[i as int].deep_view());
        entries.push(NameEntry { name: packages[i].name.clone(), position: i });
        i += 1;
    }
    let index = NameIndex { entries };
    proof {
        let models = packages.deep_view();
        assert forall|name: Text| index@.contains_key(name) == named(models).contains_key(
            name,
        ) by {
            if index@.contains_key(name) {
                let e = choose|e: int|
                    0 <= e < index.entries@.len() && (#[trigger] index.entries@[e]).name@ == name;
                assert(models[e].name == name);
            }
            if named(models).contains_key(name) {
                let k = choose|k: int| 0 <= k < models.len() && (#[trigger] models[k]).name == name;
                assert(index.entries@[k].name@ == name);
            }
        }
        assert forall|name: Text| #[trigger] index@.contains_key(name) implies index@[name]
            == named(models)[name] by {
            let k = choose|k: int| 0 <= k < models.len() && (#[trigger] models[k]).name == name;
            let last = lemma_last_with_name_exists(models, name, k);
            assert(is_last_entry(index.entries@, name, last)) by {
                assert forall|l: int| last < l < index.entries@.len() implies (
                #[trigger] index.entries@[l]).name@ != name by {
                    assert(models[l].name != name);
                }
            }
            let e = choose|e: int| is_last_entry(index.entries@, name, e);
            let c = choose|c: int| is_last_with_name(models, name, c);
            assert(is_last_entry(index.entries@, name, e));
            assert(is_last_with_name(models, name, c));
            assert(models[e].name == name);
            if e < c {
                assert(index.entries@[c].name@ == name);
            } else if c < e {
                assert(models[e].name != name);
            }
        }
        assert(index@ =~= named(models));
        assert(index.deep_view() =~= named_entries(models));
    }
    index
}

impl NameIndex {
    /// Looks up the position of the package called `name`.
    pub fn get(&self, name: &str) -> (position: Option<usize>)
        ensures
            position == (if self@.contains_key(name@) {
                Some(self@[name@])
            } else {
                None
            }),
    {
        let wanted: String = String::from_str(name);
        let mut e: usize = self.entries.len();
        while e > 0
            invariant
                e <= self.entries@.len(),
                wanted@ == name@,
                forall|k: int| e <= k < self.entries@.len() ==> (#[trigger] self.entries@[k]).name@
                    != name@,
            decreases e,
        {
            e -= 1;
            if self.entries[e].name == wanted {
                proof {
                    assert(is_last_entry(self.entries@, name@, e as int));
                    let c = choose|c: int| is_last_entry(self.entries@, name@, c);
                    assert(is_last_entry(self.entries@, name@, c));
                    if c < e {
                        assert(self.entries@[e as int].name@ != name@);
                    }
                }
                return Some(self.entries[e].position);
            }
        }
        proof {
            if self@.contains_key(name@) {
                let k = choose|k: int|
                    0 <= k < self.entries@.len() && (#[trigger] self.entries@[k]).name@ == name@;
                assert(false);
            }
        }
        None
    }
}

impl PositionIndex {
    /// Looks up the positions filed under `key`.
    pub fn get(&self, key: &str) -> (positions: Option<&Vec<usize>>)
        ensures
            match positions {
                Some(found) => self@.contains_key(key@) && found@ == self@[key@],
                None => !self@.contains_key(key@),
            },
    {
        let wanted: String = String::from_str(key);
        let mut b: usize = 0;
        while b < self.buckets.len()
            invariant
                b <= self.buckets@.len(),
                wanted@ == key@,
                forall|k: int| 0 <= k < b ==> (#[trigger] self.buckets@[k]).key@ != key@,
            decreases self.buckets.len() - b,
        {
            if self.buckets[b].key == wanted {
                proof {
                    assert(is_bucket_of(self.buckets@, key@, b as int));
                    let c = choose|c: int| is_bucket_of(self.buckets@, key@, c);
                    assert(is_bucket_of(self.buckets@, key@, c));
                    if c < b {
                        assert(self.buckets@[c].key@ != key@);
                    } else if b < c {
                        assert(self.buckets@[b as int].key@ != key@);
                    }
                }
                return Some(&self.buckets[b].positions);
            }
            b += 1;
        }
        proof {
            if self@.contains_key(key@) {
                let c = choose|c: int| is_bucket_of(self.buckets@, key@, c);
                assert(self.buckets@[c].key@ == key@);
            }
        }
        None
    }
}

} // verus!
