use vstd::prelude::*;

use crate::text::{
    has_task_ext, lex_le, lemma_lex_le_total, lemma_lex_le_trans, lemma_lex_lt_asymmetric,
    path_has_task_ext, str_lt,
};

verus! {

broadcast use vstd::seq_lib::group_to_multiset_ensures, vstd::seq_lib::to_multiset_insert,
    vstd::seq_lib::to_multiset_remove;

// ---------------------------------------------------------------------------
// The directory scanner.
//
// The surrounding process lists the directory; the scanner decides, for the
// listing it got, which entries are task files and in what order they are to
// be loaded: regular files carrying the task-file extension, sorted so that
// loading is reproducible whatever order the file system handed them out in.
// ---------------------------------------------------------------------------

/// One entry of a directory listing: its path and whether it is a regular
/// file.
pub struct DirEntry {
    pub path: String,
    pub is_file: bool,
}

/// The mathematical shape of a directory entry.
pub struct DirEntryView {
    pub path: Seq<char>,
    pub is_file: bool,
}

impl View for DirEntry {
    type V = DirEntryView;

    open spec fn view(&self) -> DirEntryView {
        DirEntryView { path: self.path@, is_file: self.is_file }
    }
}

impl DeepView for DirEntry {
    type V = DirEntryView;

    open spec fn deep_view(&self) -> DirEntryView {
        self.view()
    }
}

/// An entry is a candidate task file when it is a regular file and its base
/// name carries the task-file extension, compared case-insensitively.
pub open spec fn is_task_entry(e: DirEntryView) -> bool {
    e.is_file && has_task_ext(e.path)
}

/// The candidate paths of a listing, in listing order.
pub open spec fn task_file_paths(s: Seq<DirEntryView>) -> Seq<Seq<char>> {
    s.filter(|e: DirEntryView| is_task_entry(e)).map_values(|e: DirEntryView| e.path)
}

/// Ascending lexicographic order over a sequence of strings.
pub open spec fn sorted_paths(s: Seq<Seq<char>>) -> bool {
    forall|p: int, q: int| 0 <= p < q < s.len() ==> lex_le(s[p], s[q])
}

/// Sorts the paths ascending, keeping exactly the same occurrences.
fn sort_paths(v: &mut Vec<String>)
    ensures
        sorted_paths(final(v).deep_view()),
        final(v).deep_view().to_multiset() == old(v).deep_view().to_multiset(),
        final(v)@.len() == old(v)@.len(),
{
    let ghost dv0 = v.deep_view();
    if v.len() <= 1 {
        return ;
    }
    let mut i: usize = 1;
    while i < v.len()
        invariant
            1 <= i <= v.len(),
            v.deep_view().to_multiset() == dv0.to_multiset(),
            v@.len() == dv0.len(),
            sorted_paths(v.deep_view().take(i as int)),
        decreases v@.len() - i,
    {
        let ghost dv_outer = v.deep_view();
        let x = v.remove(i);
        proof {
            assert(v.deep_view() =~= dv_outer.remove(i as int));
        }
        let mut j: usize = i;
        while j > 0 && str_lt(x.as_str(), v[j - 1].as_str())
            invariant
                j <= i,
                i < dv_outer.len(),
                v@.len() == dv_outer.len() - 1,
                v.deep_view() == dv_outer.remove(i as int),
                x@ == dv_outer[i as int],
                sorted_paths(dv_outer.take(i as int)),
                forall|k: int| j <= k < i ==> !lex_le(v.deep_view()[k], x@),
            decreases j,
        {
            proof {
                lemma_lex_lt_asymmetric(x@, v.deep_view()[j - 1]);
            }
            j = j - 1;
        }
        proof {
            // Elements before the insertion point do not come after x.
            if j > 0 {
                assert forall|k: int| 0 <= k < j implies lex_le(v.deep_view()[k], x@) by {
                    if k < j - 1 {
                        assert(dv_outer.take(i as int)[k] == dv_outer[k]);
                        assert(dv_outer.take(i as int)[j - 1] == dv_outer[j - 1]);
                        assert(lex_le(
                            dv_outer.take(i as int)[k],
                            dv_outer.take(i as int)[j - 1],
                        ));
                        lemma_lex_le_trans(v.deep_view()[k], v.deep_view()[j - 1], x@);
                    }
                }
            }
            // Elements from the insertion point on come after x.
            assert forall|k: int| j <= k < i implies lex_le(x@, v.deep_view()[k]) by {
                lemma_lex_le_total(x@, v.deep_view()[k]);
            }
        }
        let ghost dv_before = v.deep_view();
        v.insert(j, x);
        proof {
            assert(v.deep_view() =~= dv_before.insert(j as int, x@));
            let dv = v.deep_view();
            assert forall|p: int, q: int| 0 <= p < q < i + 1 implies lex_le(dv[p], dv[q]) by {
                assert(dv =~= dv_before.insert(j as int, x@));
                if p < j && q < j {
                } else if p < j && q == j {
                } else if p == j {
                } else if q > j && p > j {
                    assert(dv[p] == dv_before[p - 1]);
                    assert(dv[q] == dv_before[q - 1]);
                } else {
                    // p < j < q
                    assert(dv[p] == dv_before[p]);
                    assert(dv[q] == dv_before[q - 1]);
                    lemma_lex_le_trans(dv[p], x@, dv[q]);
                }
            }
            assert(sorted_paths(v.deep_view().take(i as int + 1)));
        }
        i = i + 1;
    }
    proof {
        if v@.len() > 0 {
            assert(v.deep_view().take(v@.len() as int) =~= v.deep_view());
        }
    }
}

/// Picks the candidate task files out of a directory listing and orders them
/// ascending by path, so that one listing always loads the same way.
pub fn select_task_files(entries: &Vec<DirEntry>) -> (r: Vec<String>)
    ensures
        sorted_paths(r.deep_view()),
        r.deep_view().to_multiset() == task_file_paths(entries.deep_view()).to_multiset(),
        r@.len() == task_file_paths(entries.deep_view()).len(),
{
    let mut out: Vec<String> = Vec::new();
    let mut i: usize = 0;
    proof {
        assert(entries.deep_view().take(0) =~= Seq::<DirEntryView>::empty());
        assert(task_file_paths(Seq::<DirEntryView>::empty()) =~= Seq::<Seq<char>>::empty());
    }
    while i < entries.len()
        invariant
            i <= entries@.len(),
            entries.deep_view().len() == entries@.len(),
            out.deep_view() =~= task_file_paths(entries.deep_view().take(i as int)),
        decreases entries@.len() - i,
    {
        let e = &entries[i];
        let ghost pre = entries.deep_view().take(i as int);
        let ghost ev = entries.deep_view()[i as int];
        let keep = e.is_file && path_has_task_ext(e.path.as_str());
        if keep {
            out.push(e.path.clone());
        }
        proof {
            assert(entries.deep_view().take(i as int + 1) =~= pre.push(ev));
            pre.lemma_filter_push(ev, |x: DirEntryView| is_task_entry(x));
            if is_task_entry(ev) {
                assert(task_file_paths(pre.push(ev)) =~= task_file_paths(pre).push(ev.path));
            } else {
                assert(task_file_paths(pre.push(ev)) =~= task_file_paths(pre));
            }
        }
        i = i + 1;
    }
    proof {
        assert(entries.deep_view().take(entries@.len() as int) =~= entries.deep_view());
    }
    let mut sorted = out;
    sort_paths(&mut sorted);
    sorted
}

// ---------------------------------------------------------------------------
// Classification of a directory listing attempt.
// ---------------------------------------------------------------------------

/// What the surrounding process found when it went to list the directory.
pub enum DirListing {
    /// The directory does not exist: a valid, empty configuration.
    Missing,
    /// The directory was listed.
    Entries(Vec<DirEntry>),
    /// Listing the directory itself failed, with the underlying message.
    Failed(String),
}

/// A fatal scanner failure: the directory was there but could not be listed.
#[derive(Debug)]
pub struct ScanError {
    pub message: String,
}

/// Turns a directory listing attempt into the ordered candidate files.
/// A missing directory is no error: it scans as empty. Any other listing
/// failure is fatal and is surfaced to the caller.
pub fn scan_listing(listing: &DirListing) -> (r: Result<Vec<String>, ScanError>)
    ensures
        listing is Missing ==> (r matches Ok(v) && v@.len() == 0),
        listing matches DirListing::Entries(es) ==> (r matches Ok(v) && {
            &&& sorted_paths(v.deep_view())
            &&& v.deep_view().to_multiset() == task_file_paths(es.deep_view()).to_multiset()
            &&& v@.len() == task_file_paths(es.deep_view()).len()
        }),
        listing matches DirListing::Failed(m) ==> (r matches Err(e) && e.message@ == m@),
{
    match listing {
        DirListing::Missing => Ok(Vec::new()),
        DirListing::Entries(es) => Ok(select_task_files(es)),
        DirListing::Failed(m) => Err(ScanError { message: m.clone() }),
    }
}

} // verus!
