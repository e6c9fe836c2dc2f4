//! The pure side of the local query and maintenance interface: listing the
//! screenshot directory, planning and tallying a clear, and the statistics.
//! Reading directories and files and answering requests is the host's part.

use vstd::prelude::*;
use crate::records::{count_lines, lines_of};
use crate::text::chars_of;

verus! {

broadcast use vstd::seq_lib::group_to_multiset_ensures, vstd::multiset::group_multiset_axioms;

/// One entry of a directory listing.
pub struct DirEntryInfo {
    /// The entry's name, when it is valid UTF-8.
    pub name: Option<String>,
    /// Whether the entry is a regular file.
    pub is_file: bool,
}

/// A screenshot as the interface lists it.
pub struct ScreenshotEntry {
    pub name: String,
    /// The relative path it is served under.
    pub url: String,
}

/// Counts over the logs and the screenshot directory.
pub struct LogStats {
    pub key_logs: usize,
    pub window_logs: usize,
    pub screenshots: usize,
}

/// The names of the regular files of a listing that have one, in order.
pub open spec fn listed_names(entries: Seq<DirEntryInfo>) -> Seq<Seq<char>>
    decreases entries.len(),
{
    if entries.len() == 0 {
        Seq::empty()
    } else {
        let rest = listed_names(entries.drop_last());
        let e = entries.last();
        if e.is_file && e.name is Some {
            rest.push(e.name->0@)
        } else {
            rest
        }
    }
}

/// The indices of the regular files of a listing, in order.
pub open spec fn file_indices(entries: Seq<DirEntryInfo>) -> Seq<usize>
    decreases entries.len(),
{
    if entries.len() == 0 {
        Seq::empty()
    } else {
        let rest = file_indices(entries.drop_last());
        if entries.last().is_file {
            rest.push((entries.len() - 1) as usize)
        } else {
            rest
        }
    }
}

/// The number of `true` outcomes.
pub open spec fn successes(outcomes: Seq<bool>) -> nat
    decreases outcomes.len(),
{
    if outcomes.len() == 0 {
        0
    } else {
        successes(outcomes.drop_last()) + if outcomes.last() {
            1nat
        } else {
            0nat
        }
    }
}

/// String order: by code point, a proper prefix first (the order of UTF-8
/// bytes, which `str` comparison uses).
pub open spec fn text_less(a: Seq<char>, b: Seq<char>) -> bool
    decreases a.len(),
{
    if a.len() == 0 {
        b.len() > 0
    } else if b.len() == 0 {
        false
    } else if a[0] != b[0] {
        a[0] < b[0]
    } else {
        text_less(a.drop_first(), b.drop_first())
    }
}

/// Names in descending order.
pub open spec fn sorted_desc(s: Seq<Seq<char>>) -> bool {
    forall|i: int, j: int| 0 <= i < j < s.len() ==> !text_less(#[trigger] s[i], #[trigger] s[j])
}

/// The names of listed screenshots.
pub open spec fn names_of(v: Seq<ScreenshotEntry>) -> Seq<Seq<char>> {
    v.map_values(|e: ScreenshotEntry| e.name@)
}

proof fn lemma_less_irreflexive(a: Seq<char>)
    ensures
        !text_less(a, a),
    decreases a.len(),
{
    if a.len() > 0 {
        lemma_less_irreflexive(a.drop_first());
    }
}

proof fn lemma_less_total(a: Seq<char>, b: Seq<char>)
    ensures
        a == b || text_less(a, b) || text_less(b, a),
    decreases a.len(),
{
    if a.len() > 0 && b.len() > 0 && a[0] == b[0] {
        lemma_less_total(a.drop_first(), b.drop_first());
        if a.drop_first() == b.drop_first() {
            assert(a =~= seq![a[0]] + a.drop_first());
            assert(b =~= seq![b[0]] + b.drop_first());
        }
    } else if a.len() == 0 && b.len() == 0 {
        assert(a =~= b);
    }
}

proof fn lemma_less_transitive(a: Seq<char>, b: Seq<char>, c: Seq<char>)
    requires
        text_less(a, b),
        text_less(b, c),
    ensures
        text_less(a, c),
    decreases a.len(),
{
    if a.len() > 0 && b.len() > 0 && c.len() > 0 && a[0] == b[0] && b[0] == c[0] {
        lemma_less_transitive(a.drop_first(), b.drop_first(), c.drop_first());
    }
}

proof fn lemma_less_asymmetric(a: Seq<char>, b: Seq<char>)
    requires
        text_less(a, b),
    ensures
        !text_less(b, a),
{
    if text_less(b, a) {
        lemma_less_transitive(a, b, a);
        lemma_less_irreflexive(a);
    }
}

/// Compares two names in string order.
fn name_less(a: &String, b: &String) -> (r: bool)
    ensures
        r == text_less(a@, b@),
{
    let x = chars_of(a.as_str());
    let y = chars_of(b.as_str());
    let mut i: usize = 0;
    assert(x@.skip(0) =~= x@);
    assert(y@.skip(0) =~= y@);
    while i < x.len() && i < y.len() && x[i] == y[i]
        invariant
            i <= x@.len(),
            i <= y@.len(),
            text_less(a@, b@) == text_less(x@.skip(i as int), y@.skip(i as int)),
            x@ == a@,
            y@ == b@,
        decreases x@.len() - i,
    {
        assert(x@.skip(i as int).drop_first() =~= x@.skip(i + 1));
        assert(y@.skip(i as int).drop_first() =~= y@.skip(i + 1));
        i = i + 1;
    }
    if i == x.len() {
        i < y.len()
    } else if i == y.len() {
        false
    } else {
        x[i] < y[i]
    }
}

proof fn lemma_insert_multiset(s: Seq<Seq<char>>, p: int, x: Seq<char>)
    requires
        0 <= p <= s.len(),
    ensures
        s.insert(p, x).to_multiset() =~= s.to_multiset().insert(x),
{
    let pre = s.subrange(0, p);
    let post = s.subrange(p, s.len() as int);
    assert(s =~= pre + post);
    vstd::seq_lib::lemma_multiset_commutative(pre.push(x), post);
    vstd::seq_lib::lemma_multiset_commutative(pre, post);
}

/// The screenshots of a directory listing: its regular files with UTF-8
/// names, newest first (names carry their capture time, so descending name
/// order), each with the path it is served under.
pub fn screenshot_listing(entries: &Vec<DirEntryInfo>) -> (r: Vec<ScreenshotEntry>)
    ensures
        sorted_desc(names_of(r@)),
        names_of(r@).to_multiset() == listed_names(entries@).to_multiset(),
        forall|i: int| 0 <= i < r@.len() ==> (#[trigger] r@[i]).url@ == "/screenshots/"@ + r@[i].name@,
{
    let mut out: Vec<ScreenshotEntry> = Vec::new();
    let mut i: usize = 0;
    assert(entries@.subrange(0, 0) =~= Seq::<DirEntryInfo>::empty());
    assert(names_of(out@) =~= Seq::<Seq<char>>::empty());
    while i < entries.len()
        invariant
            i <= entries@.len(),
            sorted_desc(names_of(out@)),
            names_of(out@).to_multiset() == listed_names(entries@.subrange(0, i as int)).to_multiset(),
            forall|k: int| 0 <= k < out@.len() ==> (#[trigger] out@[k]).url@ == "/screenshots/"@ + out@[k].name@,
        decreases entries@.len() - i,
    {
        assert(entries@.subrange(0, i + 1).drop_last() =~= entries@.subrange(0, i as int));
        let e = &entries[i];
        if e.is_file {
            match &e.name {
                Some(n) => {
                    let mut url = String::from_str("/screenshots/");
                    url.append(n.as_str());
                    let item = ScreenshotEntry { name: n.clone(), url };
                    let mut p: usize = 0;
                    while p < out.len() && !name_less(&out[p].name, &item.name)
                        invariant
                            p <= out@.len(),
                            forall|k: int| 0 <= k < p ==> !text_less(#[trigger] out@[k].name@, n@),
                            item.name@ == n@,
                        decreases out@.len() - p,
                    {
                        p = p + 1;
                    }
                    let ghost old_names = names_of(out@);
                    proof {
                        if p < out@.len() {
                            assert forall|j: int| p <= j < out@.len() implies !text_less(
                                n@,
                                #[trigger] out@[j].name@,
                            ) by {
                                assert(text_less(old_names[p as int], n@));
                                if j > p {
                                    assert(!text_less(old_names[p as int], old_names[j]));
                                    lemma_less_total(old_names[p as int], old_names[j]);
                                    if text_less(old_names[j], old_names[p as int]) {
                                        lemma_less_transitive(old_names[j], old_names[p as int], n@);
                                    }
                                }
                                lemma_less_asymmetric(old_names[j], n@);
                            }
                        }
                    }
                    out.insert(p, item);
                    proof {
                        assert(names_of(out@) =~= old_names.insert(p as int, n@));
                        lemma_insert_multiset(old_names, p as int, n@);
                        let nn = names_of(out@);
                        assert forall|a: int, b: int| 0 <= a < b < nn.len() implies !text_less(
                            #[trigger] nn[a],
                            #[trigger] nn[b],
                        ) by {
                            if a < p && b < p {
                            } else if a < p && b == p {
                            } else if a < p && b > p {
                                assert(nn[b] == old_names[b - 1]);
                            } else if a == p {
                                assert(nn[b] == old_names[b - 1]);
                            } else {
                                assert(nn[a] == old_names[a - 1]);
                                assert(nn[b] == old_names[b - 1]);
                            }
                        }
                    }
                },
                None => {},
            }
        }
        i = i + 1;
    }
    assert(entries@.subrange(0, entries@.len() as int) =~= entries@);
    out
}

/// The number of regular files in a listing.
pub open spec fn file_count(entries: Seq<DirEntryInfo>) -> nat {
    file_indices(entries).len()
}

/// Which entries of the screenshot directory a clear removes: every regular
/// file, not descending into subdirectories.
pub fn files_to_clear(entries: &Vec<DirEntryInfo>) -> (r: Vec<usize>)
    ensures
        r@ == file_indices(entries@),
{
    let mut out: Vec<usize> = Vec::new();
    let mut i: usize = 0;
    assert(entries@.subrange(0, 0) =~= Seq::<DirEntryInfo>::empty());
    while i < entries.len()
        invariant
            i <= entries@.len(),
            out@ == file_indices(entries@.subrange(0, i as int)),
        decreases entries@.len() - i,
    {
        assert(entries@.subrange(0, i + 1).drop_last() =~= entries@.subrange(0, i as int));
        if entries[i].is_file {
            out.push(i);
        }
        i = i + 1;
    }
    assert(entries@.subrange(0, entries@.len() as int) =~= entries@);
    out
}

/// The number of regular files in a listing.
pub fn count_files(entries: &Vec<DirEntryInfo>) -> (r: usize)
    ensures
        r == file_count(entries@),
{
    files_to_clear(entries).len()
}

/// How many removals of a clear succeeded.
pub fn tally_removed(outcomes: &Vec<bool>) -> (r: usize)
    ensures
        r == successes(outcomes@),
{
    let mut n: usize = 0;
    let mut i: usize = 0;
    assert(outcomes@.subrange(0, 0) =~= Seq::<bool>::empty());
    while i < outcomes.len()
        invariant
            i <= outcomes@.len(),
            n == successes(outcomes@.subrange(0, i as int)),
            n <= i,
        decreases outcomes@.len() - i,
    {
        assert(outcomes@.subrange(0, i + 1).drop_last() =~= outcomes@.subrange(0, i as int));
        if outcomes[i] {
            n = n + 1;
        }
        i = i + 1;
    }
    assert(outcomes@.subrange(0, outcomes@.len() as int) =~= outcomes@);
    n
}

/// The statistics over the two logs' text and the screenshot directory.
pub fn log_stats(key_log: &str, window_log: &str, screenshots: &Vec<DirEntryInfo>) -> (r: LogStats)
    ensures
        r.key_logs == lines_of(key_log@).len(),
        r.window_logs == lines_of(window_log@).len(),
        r.screenshots == file_count(screenshots@),
{
    LogStats {
        key_logs: count_lines(key_log),
        window_logs: count_lines(window_log),
        screenshots: count_files(screenshots),
    }
}

/// Clearing what is already empty removes nothing: a screenshot directory
/// without regular files gives an empty removal plan, whose outcomes tally
/// to zero, and an emptied log holds no lines.
pub proof fn lemma_clear_empty_is_zero(entries: Seq<DirEntryInfo>, outcomes: Seq<bool>)
    requires
        forall|i: int| 0 <= i < entries.len() ==> !(#[trigger] entries[i]).is_file,
        outcomes.len() == file_indices(entries).len(),
    ensures
        file_indices(entries) == Seq::<usize>::empty(),
        successes(outcomes) == 0,
        lines_of(Seq::<char>::empty()) == Seq::<Seq<char>>::empty(),
    decreases entries.len(),
{
    if entries.len() > 0 {
        let rest = entries.drop_last();
        assert forall|i: int| 0 <= i < rest.len() implies !(#[trigger] rest[i]).is_file by {
            assert(rest[i] == entries[i]);
        }
        lemma_clear_empty_is_zero(rest, outcomes);
        assert(!entries[entries.len() - 1].is_file);
    }
}

} // verus!
