use vstd::prelude::*;
use vstd::multiset::Multiset;
use vstd::seq_lib::group_to_multiset_ensures;

use crate::entry::FileEntry;

verus! {

/// Entries in non-decreasing order of modification time. Entries with
/// equal timestamps may stand in either order.
pub open spec fn sorted_by_modified(s: Seq<FileEntry>) -> bool {
    forall|i: int, j: int|
        0 <= i < j < s.len() ==> #[trigger] s[i].modified <= #[trigger] s[j].modified
}

/// Where one entry lands among entries already placed: after every entry
/// whose time is not later, before every entry whose time is later.
pub open spec fn insert_by_modified(s: Seq<FileEntry>, e: FileEntry) -> Seq<FileEntry>
    decreases s.len(),
{
    if s.len() == 0 {
        seq![e]
    } else if s.last().modified <= e.modified {
        s.push(e)
    } else {
        insert_by_modified(s.drop_last(), e).push(s.last())
    }
}

/// The stable sort of a listing by modification time: entries are placed
/// one by one in listing order, each after those already placed whose
/// times are not later, so entries with equal times keep their listing
/// order.
pub open spec fn sort_spec(s: Seq<FileEntry>) -> Seq<FileEntry>
    decreases s.len(),
{
    if s.len() == 0 {
        Seq::empty()
    } else {
        insert_by_modified(sort_spec(s.drop_last()), s.last())
    }
}

proof fn lemma_insert_at_position(s: Seq<FileEntry>, e: FileEntry, p: int)
    requires
        0 <= p <= s.len(),
        forall|k: int| 0 <= k < p ==> #[trigger] s[k].modified <= e.modified,
        forall|k: int| p <= k < s.len() ==> e.modified < #[trigger] s[k].modified,
    ensures
        s.insert(p, e) == insert_by_modified(s, e),
    decreases s.len(),
{
    if s.len() == 0 {
        assert(s.insert(0, e) =~= seq![e]);
    } else if s.last().modified <= e.modified {
        assert(p == s.len());
        assert(s.insert(p, e) =~= s.push(e));
    } else {
        assert(p <= s.len() - 1);
        lemma_insert_at_position(s.drop_last(), e, p);
        assert(s.insert(p, e) =~= s.drop_last().insert(p, e).push(s.last()));
    }
}

/// The position where an entry with time `m` is inserted: after every
/// entry already placed whose time is not later, so that entries with
/// equal times keep the order in which they arrive.
fn insert_position(out: &Vec<FileEntry>, m: u64) -> (p: usize)
    requires
        sorted_by_modified(out@),
    ensures
        p <= out@.len(),
        forall|k: int| 0 <= k < p ==> #[trigger] out@[k].modified <= m,
        forall|k: int| p <= k < out@.len() ==> m < #[trigger] out@[k].modified,
{
    let mut p: usize = 0;
    while p < out.len() && out[p].modified <= m
        invariant
            p <= out@.len(),
            sorted_by_modified(out@),
            forall|k: int| 0 <= k < p ==> #[trigger] out@[k].modified <= m,
        decreases out@.len() - p,
    {
        p = p + 1;
    }
    proof {
        assert forall|k: int| p <= k < out@.len() implies m < #[trigger] out@[k].modified by {
            assert(out@[p as int].modified <= out@[k].modified);
        }
    }
    p
}

/// Sorts the entries by modification time, ascending: the result is
/// exactly the stable sort of the listing, so it holds the entries given
/// and no others, and entries with equal times keep the order in which
/// they were listed.
pub fn sort_by_modified_time(files: Vec<FileEntry>) -> (r: Vec<FileEntry>)
    ensures
        sorted_by_modified(r@),
        r@.to_multiset() == files@.to_multiset(),
        r@ == sort_spec(files@),
{
    let ghost orig: Seq<FileEntry> = files@;
    let ghost mut k: int = 0;
    let mut rest = files;
    let mut out: Vec<FileEntry> = Vec::new();
    proof {
        broadcast use group_to_multiset_ensures;
        broadcast use vstd::multiset::group_multiset_axioms;

        assert(out@.to_multiset().add(rest@.to_multiset()) =~= orig.to_multiset());
        assert(orig.take(0) =~= Seq::<FileEntry>::empty());
        assert(orig.skip(0) =~= orig);
    }
    while rest.len() > 0
        invariant
            0 <= k <= orig.len(),
            rest@ == orig.skip(k),
            out@ == sort_spec(orig.take(k)),
            sorted_by_modified(out@),
            out@.to_multiset().add(rest@.to_multiset()) == orig.to_multiset(),
        decreases rest@.len(),
    {
        let ghost old_out = out@;
        let ghost old_rest = rest@;
        let e = rest.remove(0);
        let p = insert_position(&out, e.modified);
        out.insert(p, e);
        proof {
            broadcast use group_to_multiset_ensures;
            broadcast use vstd::multiset::group_multiset_axioms;

            assert(orig.skip(k)[0] == orig[k]);
            assert(orig.skip(k).remove(0) =~= orig.skip(k + 1));
            lemma_insert_at_position(old_out, e, p as int);
            assert(orig.take(k + 1).drop_last() =~= orig.take(k));
            assert(orig.take(k + 1).last() == orig[k]);
            assert(out@ == sort_spec(orig.take(k + 1)));
            k = k + 1;
            assert(old_rest.contains(e)) by {
                assert(old_rest[0] == e);
            }
            assert(old_rest.to_multiset().count(e) > 0);
            assert(out@.to_multiset().add(rest@.to_multiset()) =~= orig.to_multiset());
            old_out.insert_ensures(p as int, e);
            assert forall|i: int, j: int| 0 <= i < j < out@.len() implies #[trigger] out@[i].modified
                <= #[trigger] out@[j].modified by {
                let pi = p as int;
                if i < pi && j < pi {
                    assert(old_out[i].modified <= old_out[j].modified);
                } else if i < pi && j == pi {
                    assert(old_out[i].modified <= e.modified);
                } else if i < pi && pi < j {
                    if i < j - 1 {
                        assert(old_out[i].modified <= old_out[j - 1].modified);
                    }
                } else if i == pi {
                    assert(e.modified < old_out[j - 1].modified);
                } else {
                    assert(old_out[i - 1].modified <= old_out[j - 1].modified);
                }
            }
        }
    }
    proof {
        broadcast use group_to_multiset_ensures;
        broadcast use vstd::multiset::group_multiset_axioms;

        assert(rest@.to_multiset() =~= Multiset::<FileEntry>::empty());
        assert(out@.to_multiset() =~= orig.to_multiset());
        assert(orig.take(k) =~= orig);
    }
    out
}

/// Sorting preserves the order of modification: an entry modified strictly
/// earlier than another stands strictly earlier in any order sorted by
/// modification time.
pub proof fn lemma_earlier_comes_first(s: Seq<FileEntry>, i: int, j: int)
    requires
        sorted_by_modified(s),
        0 <= i < s.len(),
        0 <= j < s.len(),
        s[i].modified < s[j].modified,
    ensures
        i < j,
{
    if j < i {
        assert(s[j].modified <= s[i].modified);
    }
}

} // verus!
