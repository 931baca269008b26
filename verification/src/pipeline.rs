use vstd::prelude::*;
use vstd::seq_lib::group_to_multiset_ensures;

use crate::config::Config;
use crate::config::spec_effective_prefix;
use crate::confirm::affirmative;
use crate::confirm::is_affirmative;
use crate::entry::FileEntry;
use crate::entry::RenamePlan;
use crate::errors::RenameError;
use crate::naming::lemma_first_ordinal_is_01;
use crate::naming::new_filename;
use crate::naming::spec_new_filename;
use crate::sort::lemma_earlier_comes_first;
use crate::sort::sort_by_modified_time;
use crate::sort::sort_spec;
use crate::sort::sorted_by_modified;

verus! {

/// The entries that may be renamed: those listed as regular files, in
/// their order of discovery. Directories, symlinks to directories and
/// special files fall away here.
pub open spec fn regular_only(s: Seq<FileEntry>) -> Seq<FileEntry>
    decreases s.len(),
{
    if s.len() == 0 {
        Seq::empty()
    } else {
        let r = regular_only(s.drop_last());
        if s.last().is_regular {
            r.push(s.last())
        } else {
            r
        }
    }
}

/// Every entry kept by the regular-file filter is a regular file.
pub proof fn lemma_regular_only_regular(s: Seq<FileEntry>, i: int)
    requires
        0 <= i < regular_only(s).len(),
    ensures
        regular_only(s)[i].is_regular,
    decreases s.len(),
{
    if s.len() > 0 {
        let r = regular_only(s.drop_last());
        if s.last().is_regular && i == r.len() {
        } else {
            lemma_regular_only_regular(s.drop_last(), i);
        }
    }
}

/// Every entry kept by the regular-file filter appears in the listing.
pub proof fn lemma_regular_only_membership(s: Seq<FileEntry>, x: FileEntry)
    requires
        regular_only(s).contains(x),
    ensures
        s.contains(x),
    decreases s.len(),
{
    if s.len() > 0 {
        let r = regular_only(s.drop_last());
        let ro = regular_only(s);
        let i = choose|i: int| 0 <= i < ro.len() && ro[i] == x;
        if s.last().is_regular && i == r.len() {
            assert(s[s.len() - 1] == x);
        } else {
            assert(r[i] == x);
            assert(r.contains(x));
            lemma_regular_only_membership(s.drop_last(), x);
            let j = choose|j: int|
                0 <= j < s.drop_last().len() && s.drop_last()[j] == x;
            assert(s[j] == x);
        }
    }
}

/// Retains only the entries listed as regular files, in their order of
/// discovery.
pub fn filter_regular(entries: Vec<FileEntry>) -> (r: Vec<FileEntry>)
    ensures
        r@ == regular_only(entries@),
{
    let ghost orig: Seq<FileEntry> = entries@;
    let ghost mut k: int = 0;
    let mut rest = entries;
    let mut out: Vec<FileEntry> = Vec::new();
    proof {
        assert(orig.take(0) =~= Seq::<FileEntry>::empty());
        assert(orig.skip(0) =~= orig);
    }
    while rest.len() > 0
        invariant
            0 <= k <= orig.len(),
            rest@ == orig.skip(k),
            out@ == regular_only(orig.take(k)),
        decreases rest@.len(),
    {
        let e = rest.remove(0);
        proof {
            assert(orig.skip(k)[0] == orig[k]);
            assert(orig.skip(k).remove(0) =~= orig.skip(k + 1));
            assert(orig.take(k + 1).drop_last() =~= orig.take(k));
            assert(orig.take(k + 1).last() == orig[k]);
        }
        if e.is_regular {
            out.push(e);
        }
        proof {
            k = k + 1;
            assert(out@ == regular_only(orig.take(k)));
        }
    }
    proof {
        assert(orig.take(k) =~= orig);
    }
    out
}

/// How a plan list stands to the sorted file list it was made from:
/// one plan per file, in order, the 1-based position as the ordinal,
/// and the new name built from ordinal, prefix and original name.
pub open spec fn plans_for_sorted(
    plans: Seq<RenamePlan>,
    sorted: Seq<FileEntry>,
    prefix: Seq<char>,
) -> bool {
    &&& plans.len() == sorted.len()
    &&& forall|i: int|
        0 <= i < plans.len() ==> {
            &&& (#[trigger] plans[i]).ordinal == i + 1
            &&& plans[i].original_name@ == sorted[i].name@
            &&& plans[i].new_name@ == spec_new_filename(i + 1, prefix, sorted[i].name@)
        }
}

/// Whether some order of the regular files of the listing, sorted by
/// modification time, gives rise to exactly this plan list.
pub open spec fn plan_witness(
    plans: Seq<RenamePlan>,
    entries: Seq<FileEntry>,
    prefix: Seq<char>,
    sorted: Seq<FileEntry>,
) -> bool {
    &&& sorted_by_modified(sorted)
    &&& sorted.to_multiset() == regular_only(entries).to_multiset()
    &&& plans_for_sorted(plans, sorted, prefix)
}

/// What a plan list promises about a listing: the regular files, sorted
/// by modification time, are renamed one each, in order, under ordinals
/// `1`, `2`, and so on.
pub open spec fn valid_plans(
    plans: Seq<RenamePlan>,
    entries: Seq<FileEntry>,
    prefix: Seq<char>,
) -> bool {
    exists|sorted: Seq<FileEntry>| #[trigger] plan_witness(plans, entries, prefix, sorted)
}

/// Builds one rename plan per file of the sorted list: the plan at
/// position `i` carries ordinal `i + 1`, the file's present name, and the
/// new name made of padded ordinal, prefix and present name.
pub fn make_plans(files: &Vec<FileEntry>, prefix: &str) -> (plans: Vec<RenamePlan>)
    ensures
        plans_for_sorted(plans@, files@, prefix@),
{
    let mut plans: Vec<RenamePlan> = Vec::new();
    let mut i: usize = 0;
    while i < files.len()
        invariant
            i <= files@.len(),
            plans@.len() == i,
            forall|k: int|
                0 <= k < i ==> {
                    &&& (#[trigger] plans@[k]).ordinal == k + 1
                    &&& plans@[k].original_name@ == files@[k].name@
                    &&& plans@[k].new_name@ == spec_new_filename(
                        k + 1,
                        prefix@,
                        files@[k].name@,
                    )
                },
        decreases files@.len() - i,
    {
        let original_name = files[i].name.clone();
        let new_name = new_filename(i + 1, prefix, files[i].name.as_str());
        plans.push(RenamePlan { ordinal: i + 1, original_name, new_name });
        i = i + 1;
    }
    plans
}

/// What one run comes to, once the user has answered.
pub enum RunOutcome {
    /// The user declined: nothing is renamed and the run ends well.
    Cancelled,
    /// The user confirmed: the files are to be renamed as planned, in
    /// this order, aborting at the first failure.
    Renamed(Vec<RenamePlan>),
}

/// Decides one whole run from the values read at the boundary: whether
/// the path named a directory, the entries listed directly under it, and
/// the confirmation line. No rename is performed here; the caller carries
/// the returned plans out in order and stops at the first failure.
pub fn run(
    config: &Config,
    path_is_dir: bool,
    entries: Vec<FileEntry>,
    confirmation: &str,
) -> (r: Result<RunOutcome, RenameError>)
    ensures
        r is Err <==> !path_is_dir,
        !path_is_dir ==> (r matches Err(e) && e == RenameError::NotADirectory),
        (path_is_dir && !affirmative(confirmation@)) ==> (r matches Ok(o) && o is Cancelled),
        (path_is_dir && affirmative(confirmation@)) ==> (r matches Ok(o) && o matches
            RunOutcome::Renamed(plans) && plans_for_sorted(
            plans@,
            sort_spec(regular_only(entries@)),
            spec_effective_prefix(config.prefix),
        ) && valid_plans(plans@, entries@, spec_effective_prefix(config.prefix))),
{
    if !path_is_dir {
        return Err(RenameError::NotADirectory);
    }
    let ghost entries_view: Seq<FileEntry> = entries@;
    let prefix = config.effective_prefix();
    let regular = filter_regular(entries);
    let sorted = sort_by_modified_time(regular);
    if !is_affirmative(confirmation) {
        return Ok(RunOutcome::Cancelled);
    }
    let plans = make_plans(&sorted, prefix.as_str());
    proof {
        assert(plan_witness(
            plans@,
            entries_view,
            spec_effective_prefix(config.prefix),
            sorted@,
        ));
    }
    Ok(RunOutcome::Renamed(plans))
}

/// The name of each entry, in order.
pub open spec fn names_of(s: Seq<FileEntry>) -> Seq<Seq<char>>
    decreases s.len(),
{
    if s.len() == 0 {
        Seq::empty()
    } else {
        seq![s.first().name@] + names_of(s.drop_first())
    }
}

/// The original name of each plan, in order.
pub open spec fn original_names_of(plans: Seq<RenamePlan>) -> Seq<Seq<char>>
    decreases plans.len(),
{
    if plans.len() == 0 {
        Seq::empty()
    } else {
        seq![plans.first().original_name@] + original_names_of(plans.drop_first())
    }
}

/// `names_of` lists one name per entry, each at its entry's position.
pub proof fn lemma_names_of_index(s: Seq<FileEntry>)
    ensures
        names_of(s).len() == s.len(),
        forall|i: int| 0 <= i < s.len() ==> #[trigger] names_of(s)[i] == s[i].name@,
    decreases s.len(),
{
    if s.len() > 0 {
        lemma_names_of_index(s.drop_first());
        assert forall|i: int| 0 <= i < s.len() implies #[trigger] names_of(s)[i]
            == s[i].name@ by {
            if i > 0 {
                assert(names_of(s)[i] == names_of(s.drop_first())[i - 1]);
                assert(s.drop_first()[i - 1] == s[i]);
            }
        }
    }
}

/// `original_names_of` lists one name per plan, each at its plan's position.
pub proof fn lemma_original_names_of_index(plans: Seq<RenamePlan>)
    ensures
        original_names_of(plans).len() == plans.len(),
        forall|i: int|
            0 <= i < plans.len() ==> #[trigger] original_names_of(plans)[i]
                == plans[i].original_name@,
    decreases plans.len(),
{
    if plans.len() > 0 {
        lemma_original_names_of_index(plans.drop_first());
        assert forall|i: int| 0 <= i < plans.len() implies #[trigger] original_names_of(
            plans,
        )[i] == plans[i].original_name@ by {
            if i > 0 {
                assert(original_names_of(plans)[i] == original_names_of(
                    plans.drop_first(),
                )[i - 1]);
                assert(plans.drop_first()[i - 1] == plans[i]);
            }
        }
    }
}

proof fn lemma_names_of_remove(s: Seq<FileEntry>, j: int)
    requires
        0 <= j < s.len(),
    ensures
        names_of(s.remove(j)) =~= names_of(s).remove(j),
{
    lemma_names_of_index(s);
    lemma_names_of_index(s.remove(j));
    s.remove_ensures(j);
    names_of(s).remove_ensures(j);
}

/// Listings that hold the same entries hold the same names, however the
/// entries are ordered.
proof fn lemma_names_multiset(s1: Seq<FileEntry>, s2: Seq<FileEntry>)
    requires
        s1.to_multiset() == s2.to_multiset(),
    ensures
        names_of(s1).to_multiset() == names_of(s2).to_multiset(),
    decreases s1.len(),
{
    broadcast use group_to_multiset_ensures;
    broadcast use vstd::multiset::group_multiset_axioms;

    lemma_names_of_index(s1);
    lemma_names_of_index(s2);
    if s1.len() == 0 {
        assert(s1.to_multiset().len() == s1.len());
        assert(s2.to_multiset().len() == s2.len());
        assert(names_of(s1) =~= names_of(s2));
    } else {
        let x = s1[0];
        assert(s1.contains(x));
        assert(s1.to_multiset().count(x) > 0);
        assert(s2.contains(x));
        let j = choose|j: int| 0 <= j < s2.len() && s2[j] == x;
        assert(s1.remove(0).to_multiset() == s1.to_multiset().remove(x));
        assert(s2.remove(j).to_multiset() == s2.to_multiset().remove(x));
        lemma_names_multiset(s1.remove(0), s2.remove(j));
        lemma_names_of_remove(s1, 0);
        lemma_names_of_remove(s2, j);
        assert(names_of(s1).remove(0).to_multiset() == names_of(s1).to_multiset().remove(
            names_of(s1)[0],
        ));
        assert(names_of(s2).remove(j).to_multiset() == names_of(s2).to_multiset().remove(
            names_of(s2)[j],
        ));
        assert(names_of(s1)[0] == x.name@);
        assert(names_of(s2)[j] == x.name@);
        assert(names_of(s1).contains(x.name@));
        assert(names_of(s2).contains(x.name@));
        let m1 = names_of(s1).to_multiset();
        let m2 = names_of(s2).to_multiset();
        let key = x.name@;
        assert(m1.count(key) > 0);
        assert(m2.count(key) > 0);
        assert(m1.remove(key) == m2.remove(key));
        assert forall|a: Seq<char>| m1.count(a) == m2.count(a) by {
            assert(m1.remove(key).count(a) == m2.remove(key).count(a));
        }
        assert(m1 =~= m2);
    }
}

/// Every regular file is renamed exactly once: the original names of a
/// valid plan list are exactly the names of the regular files of the
/// listing — none repeated, none left out — the plan count equals the
/// count of regular files, and the ordinals run `1`, `2`, and so on.
pub proof fn lemma_plans_cover_files_once(
    plans: Seq<RenamePlan>,
    entries: Seq<FileEntry>,
    prefix: Seq<char>,
)
    requires
        valid_plans(plans, entries, prefix),
    ensures
        plans.len() == regular_only(entries).len(),
        original_names_of(plans).to_multiset() == names_of(regular_only(entries)).to_multiset(),
        forall|i: int| 0 <= i < plans.len() ==> (#[trigger] plans[i]).ordinal == i + 1,
{
    broadcast use group_to_multiset_ensures;

    let sorted = choose|sorted: Seq<FileEntry>| plan_witness(plans, entries, prefix, sorted);
    assert(sorted.to_multiset().len() == sorted.len());
    assert(regular_only(entries).to_multiset().len() == regular_only(entries).len());
    lemma_names_of_index(sorted);
    lemma_original_names_of_index(plans);
    assert(original_names_of(plans) =~= names_of(sorted));
    lemma_names_multiset(sorted, regular_only(entries));
}

/// The file that sorts first by modification time is renamed with ordinal
/// `1`: its new name begins with the two characters `01` followed by the
/// prefix.
pub proof fn lemma_first_new_name(
    plans: Seq<RenamePlan>,
    entries: Seq<FileEntry>,
    prefix: Seq<char>,
)
    requires
        valid_plans(plans, entries, prefix),
        plans.len() > 0,
    ensures
        plans[0].ordinal == 1,
        plans[0].new_name@.subrange(0, 2 + prefix.len() as int) == seq!['0', '1'] + prefix,
{
    let sorted = choose|sorted: Seq<FileEntry>| plan_witness(plans, entries, prefix, sorted);
    lemma_first_ordinal_is_01();
    assert(plans[0].new_name@ == (seq!['0', '1'] + prefix) + sorted[0].name@);
    assert(plans[0].new_name@.subrange(0, 2 + prefix.len() as int) =~= seq!['0', '1'] + prefix);
}

/// Renaming preserves modification order: of two files in the sorted
/// list, the one modified strictly earlier receives the strictly smaller
/// ordinal.
pub proof fn lemma_ordinals_follow_modification_order(
    plans: Seq<RenamePlan>,
    sorted: Seq<FileEntry>,
    prefix: Seq<char>,
    i: int,
    j: int,
)
    requires
        sorted_by_modified(sorted),
        plans_for_sorted(plans, sorted, prefix),
        0 <= i < sorted.len(),
        0 <= j < sorted.len(),
        sorted[i].modified < sorted[j].modified,
    ensures
        plans[i].ordinal < plans[j].ordinal,
{
    lemma_earlier_comes_first(sorted, i, j);
}

/// Entries that are not regular files are never renamed: every planned
/// rename names a regular file of the listing.
pub proof fn lemma_only_regular_files_planned(
    plans: Seq<RenamePlan>,
    entries: Seq<FileEntry>,
    prefix: Seq<char>,
    i: int,
)
    requires
        valid_plans(plans, entries, prefix),
        0 <= i < plans.len(),
    ensures
        exists|k: int|
            #![auto]
            0 <= k < entries.len() && entries[k].is_regular && entries[k].name@
                == plans[i].original_name@,
{
    broadcast use group_to_multiset_ensures;

    let sorted = choose|sorted: Seq<FileEntry>| plan_witness(plans, entries, prefix, sorted);
    assert(sorted.contains(sorted[i]));
    assert(regular_only(entries).to_multiset().count(sorted[i]) > 0);
    assert(regular_only(entries).contains(sorted[i]));
    let idx = choose|idx: int|
        0 <= idx < regular_only(entries).len() && regular_only(entries)[idx] == sorted[i];
    lemma_regular_only_regular(entries, idx);
    lemma_regular_only_membership(entries, sorted[i]);
    let k = choose|k: int| 0 <= k < entries.len() && entries[k] == sorted[i];
    assert(0 <= k < entries.len() && entries[k].is_regular && entries[k].name@
        == plans[i].original_name@);
}

} // verus!
