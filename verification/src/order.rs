//! The order in which source files are processed. Whatever order a loader
//! found the files in, putting them in the order of their paths makes the
//! collections, the reports and the artifact the same on every run over the
//! same tree.

use vstd::prelude::*;
use vstd::seq_lib::{to_multiset_build, to_multiset_insert};
use vstd::string::*;
use crate::source::SourceFile;
use crate::text::Text;

verus! {

/// Whether `a` comes before `b`, or is `b`, in the lexicographic order of
/// byte sequences.
pub open spec fn bytes_le(a: Seq<u8>, b: Seq<u8>) -> bool
    decreases a.len(),
{
    if a.len() == 0 {
        true
    } else if b.len() == 0 {
        false
    } else if a[0] != b[0] {
        a[0] < b[0]
    } else {
        bytes_le(a.drop_first(), b.drop_first())
    }
}

/// Whether `a` comes before `b`, or is `b`, in the order of texts: the
/// lexicographic order of their UTF-8 encodings.
pub open spec fn text_le(a: Text, b: Text) -> bool {
    bytes_le(vstd::utf8::encode_utf8(a), vstd::utf8::encode_utf8(b))
}

/// The paths of `files` are in order.
pub open spec fn in_order<T>(files: Seq<SourceFile<T>>) -> bool {
    forall|i: int, j: int|
        0 <= i < j < files.len() ==> text_le((#[trigger] files[i]).path@, (#[trigger] files[j]).path@)
}

/// Of two byte sequences, one comes before the other or they are the same.
pub proof fn lemma_bytes_le_total(a: Seq<u8>, b: Seq<u8>)
    ensures
        bytes_le(a, b) || bytes_le(b, a),
    decreases a.len(),
{
    if a.len() > 0 && b.len() > 0 && a[0] == b[0] {
        lemma_bytes_le_total(a.drop_first(), b.drop_first());
    }
}

/// What comes before something that comes before a third comes before the
/// third.
pub proof fn lemma_bytes_le_transitive(a: Seq<u8>, b: Seq<u8>, c: Seq<u8>)
    requires
        bytes_le(a, b),
        bytes_le(b, c),
    ensures
        bytes_le(a, c),
    decreases a.len(),
{
    if a.len() > 0 && b.len() > 0 && c.len() > 0 && a[0] == b[0] && b[0] == c[0] {
        lemma_bytes_le_transitive(a.drop_first(), b.drop_first(), c.drop_first());
    }
}

/// Decides whether `a` comes before `b`, or is `b`, in the order of texts.
pub fn precedes(a: &str, b: &str) -> (le: bool)
    ensures
        le == text_le(a@, b@),
{
    let x = a.as_bytes();
    let y = b.as_bytes();
    let mut i: usize = 0;
    assert(x@.skip(0) =~= x@);
    assert(y@.skip(0) =~= y@);
    while i < x.len() && i < y.len()
        invariant
            i <= x.len(),
            i <= y.len(),
            x@ == vstd::utf8::encode_utf8(a@),
            y@ == vstd::utf8::encode_utf8(b@),
            text_le(a@, b@) == bytes_le(x@.skip(i as int), y@.skip(i as int)),
        decreases x.len() - i,
    {
        assert(x@.skip(i as int)[0] == x@[i as int]);
        assert(y@.skip(i as int)[0] == y@[i as int]);
        assert(x@.skip(i as int).drop_first() =~= x@.skip(i + 1));
        assert(y@.skip(i as int).drop_first() =~= y@.skip(i + 1));
        if x[i] < y[i] {
            return true;
        }
        if x[i] > y[i] {
            return false;
        }
        i += 1;
    }
    i == x.len()
}

/// Puts `files` in the order of their paths. Nothing is added and nothing is
/// lost.
pub fn in_path_order<T>(files: Vec<SourceFile<T>>) -> (sorted: Vec<SourceFile<T>>)
    ensures
        in_order(sorted@),
        sorted@.to_multiset() == files@.to_multiset(),
{
    let mut sorted: Vec<SourceFile<T>> = Vec::new();
    assert(files@.take(0) =~= Seq::empty());
    for file in it: files
        invariant
            it.seq() == files@,
            in_order(sorted@),
            sorted@.to_multiset() == files@.take(it.index()).to_multiset(),
    {
        let ghost earlier = sorted@;
        let mut place: usize = sorted.len();
        let mut searching: bool = true;
        while searching && place > 0
            invariant
                place <= sorted.len(),
                sorted@ == earlier,
                forall|k: int|
                    place <= k < sorted.len() ==> !text_le((#[trigger] sorted@[k]).path@, file.path@),
                !searching ==> place > 0 && text_le(sorted@[place - 1].path@, file.path@),
            decreases place + (if searching { 1nat } else { 0nat }),
        {
            if precedes(sorted[place - 1].path.as_str(), file.path.as_str()) {
                searching = false;
            } else {
                place -= 1;
            }
        }
        proof {
            let path = vstd::utf8::encode_utf8(file.path@);
            assert forall|i: int, j: int| 0 <= i < j < earlier.insert(
                place as int,
                file,
            ).len() implies text_le(
                (#[trigger] earlier.insert(place as int, file)[i]).path@,
                (#[trigger] earlier.insert(place as int, file)[j]).path@,
            ) by {
                let after = earlier.insert(place as int, file);
                if j == place {
                    // Everything before the place comes before the last
                    // file that the search looked at.
                    assert(after[i] == earlier[i]);
                    if i < place - 1 {
                        lemma_bytes_le_transitive(
                            vstd::utf8::encode_utf8(earlier[i].path@),
                            vstd::utf8::encode_utf8(earlier[place - 1].path@),
                            path,
                        );
                    }
                } else if i == place {
                    assert(after[j] == earlier[j - 1]);
                    lemma_bytes_le_total(vstd::utf8::encode_utf8(earlier[j - 1].path@), path);
                } else if i < place && place < j {
                    assert(after[i] == earlier[i]);
                    assert(after[j] == earlier[j - 1]);
                } else if j < place {
                    assert(after[i] == earlier[i]);
                    assert(after[j] == earlier[j]);
                } else {
                    assert(after[i] == earlier[i - 1]);
                    assert(after[j] == earlier[j - 1]);
                }
            }
            to_multiset_insert(earlier, place as int, file);
            to_multiset_build(files@.take(it.index()), file);
            assert(files@.take(it.index() + 1) =~= files@.take(it.index()).push(file));
        }
        sorted.insert(place, file);
    }
    assert(files@.take(files@.len() as int) =~= files@);
    sorted
}

} // verus!
