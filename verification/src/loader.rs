use vstd::prelude::*;

use crate::parser::{
    ReadError, ReadErrorView, parse_task_file, read_result_view, spec_parse_outcome,
};
use crate::task::{TaskDefinition, TaskDefinitionView, is_valid_view};

verus! {

// ---------------------------------------------------------------------------
// The loader: one pass over the discovered files.
//
// The scanner decides which files take part and in what order; the
// surrounding process reads each file; the loader turns each file's path and
// read result into its one load outcome, in file order. A failure inside one
// file never aborts the pass: it is recorded in that file's outcome and the
// pass goes on.
// ---------------------------------------------------------------------------

/// The collection produced by one load pass: one outcome per file, in file
/// order, each a function of that file's path and read result alone.
pub open spec fn spec_load(
    files: Seq<Seq<char>>,
    reads: Seq<Result<Seq<char>, ReadErrorView>>,
) -> Seq<TaskDefinitionView> {
    Seq::new(files.len(), |i: int| spec_parse_outcome(files[i], reads[i]))
}

/// Runs the parser over every discovered file, in scan order.
pub fn load_task_definitions(files: &Vec<String>, reads: &Vec<Result<String, ReadError>>) -> (r:
    Vec<TaskDefinition>)
    requires
        files@.len() == reads@.len(),
    ensures
        r.deep_view() == spec_load(
            files@.map_values(|f: String| f@),
            reads@.map_values(|x: Result<String, ReadError>| read_result_view(x)),
        ),
        r@.len() == files@.len(),
{
    let mut out: Vec<TaskDefinition> = Vec::new();
    let mut i: usize = 0;
    while i < files.len()
        invariant
            i <= files@.len(),
            files@.len() == reads@.len(),
            out@.len() == i,
            forall|k: int|
                0 <= k < i ==> out.deep_view()[k] == spec_parse_outcome(
                    files@[k]@,
                    read_result_view(reads@[k]),
                ),
        decreases files@.len() - i,
    {
        let outcome = parse_task_file(files[i].as_str(), &reads[i]);
        let ghost pre = out.deep_view();
        let ghost ov = outcome@;
        out.push(outcome);
        proof {
            assert(out.deep_view() =~= pre.push(ov));
        }
        i = i + 1;
    }
    proof {
        assert(out.deep_view() =~= spec_load(
            files@.map_values(|f: String| f@),
            reads@.map_values(|x: Result<String, ReadError>| read_result_view(x)),
        ));
    }
    out
}

/// How many outcomes of a collection are valid.
pub open spec fn spec_valid_count(s: Seq<TaskDefinitionView>) -> nat
    decreases s.len(),
{
    if s.len() == 0 {
        0
    } else {
        spec_valid_count(s.drop_last()) + (if is_valid_view(s.last()) {
            1nat
        } else {
            0nat
        })
    }
}

/// The valid count never exceeds the collection's size.
pub proof fn lemma_valid_count_le_len(s: Seq<TaskDefinitionView>)
    ensures
        spec_valid_count(s) <= s.len(),
    decreases s.len(),
{
    if s.len() > 0 {
        lemma_valid_count_le_len(s.drop_last());
    }
}

/// The aggregate summary of one load pass: how many outcomes are valid and
/// how many failed.
pub fn load_summary(tasks: &Vec<TaskDefinition>) -> (r: (usize, usize))
    ensures
        r.0 == spec_valid_count(tasks.deep_view()),
        r.0 + r.1 == tasks@.len(),
{
    let mut valid: usize = 0;
    let mut i: usize = 0;
    proof {
        assert(tasks.deep_view().take(0) =~= Seq::<TaskDefinitionView>::empty());
    }
    while i < tasks.len()
        invariant
            i <= tasks@.len(),
            tasks.deep_view().len() == tasks@.len(),
            valid == spec_valid_count(tasks.deep_view().take(i as int)),
            valid <= i,
        decreases tasks@.len() - i,
    {
        let ghost pre = tasks.deep_view().take(i as int);
        proof {
            assert(tasks.deep_view().take(i as int + 1).drop_last() =~= pre);
            assert(tasks.deep_view().take(i as int + 1).last() == tasks.deep_view()[i as int]);
        }
        if tasks[i].is_valid() {
            valid = valid + 1;
        }
        i = i + 1;
    }
    proof {
        assert(tasks.deep_view().take(tasks@.len() as int) =~= tasks.deep_view());
        lemma_valid_count_le_len(tasks.deep_view());
    }
    (valid, tasks.len() - valid)
}

/// Loading a directory that scans as empty — a missing tasks directory among
/// them — yields the empty collection, and no failure: there is no file to
/// fail on.
pub proof fn lemma_empty_scan_loads_empty(
    files: Seq<Seq<char>>,
    reads: Seq<Result<Seq<char>, ReadErrorView>>,
)
    requires
        files.len() == 0,
    ensures
        spec_load(files, reads) =~= Seq::<TaskDefinitionView>::empty(),
        spec_valid_count(spec_load(files, reads)) == 0,
{
}

} // verus!
