//! The run's two decision points, as verified functions over plain values.
//!
//! A run walks the input root once and hands the traversal's entries to
//! [`plan_run`], which settles everything the run decides before any file is
//! read: whether the metadata check passed, which path is the assembly
//! directory, and which file names qualify as sequence data. The caller then
//! reads each selected file and hands the contents, in the same order, to
//! [`encode_genome_files`].

use vstd::prelude::*;
use crate::discovery::{
    FsEntry,
    all_metadata_found,
    check_for_data_files,
    get_genome_files,
    is_assembly_name,
    locate_assembly,
    selected_names,
};
use crate::encoder::{EncodedUnit, encoded, genome_to_binary};

verus! {

/// Everything a run decides from one traversal of the input root.
pub struct PipelinePlan {
    /// Whether every required metadata file is present.
    pub metadata_ok: bool,
    /// The path of the first entry whose name carries the assembly prefix.
    pub assembly_dir: Option<String>,
    /// The names of the qualifying sequence files, in traversal order.
    pub genome_files: Vec<String>,
}

/// Build the plan for one run from the traversal's entries: the metadata
/// check's outcome, the located assembly directory, and the selected
/// sequence-file names. The metadata check's outcome is observational only:
/// a failing check does not empty the rest of the plan.
pub fn plan_run(root_exists: bool, entries: &Vec<FsEntry>) -> (p: PipelinePlan)
    ensures
        p.metadata_ok == (root_exists && all_metadata_found(entries@)),
        (p.assembly_dir is Some) <==> exists|i: int|
            0 <= i < entries@.len() && is_assembly_name(entries@[i].name@),
        p.assembly_dir matches Some(d) ==> exists|i: int|
            0 <= i < entries@.len() && is_assembly_name(entries@[i].name@) && d@
                == entries@[i].path@ && (forall|j: int|
                0 <= j < i ==> !is_assembly_name(entries@[j].name@)),
        p.genome_files.deep_view() == selected_names(entries@),
{
    let metadata_ok = check_for_data_files(root_exists, entries);
    let assembly_dir = locate_assembly(entries);
    let genome_files = get_genome_files(entries);
    PipelinePlan { metadata_ok, assembly_dir, genome_files }
}

/// The encoding of a sequence of file contents: each file's characters
/// encoded in order, concatenated in file order.
pub open spec fn encoded_files(contents: Seq<Seq<char>>) -> Seq<EncodedUnit>
    decreases contents.len(),
{
    if contents.len() == 0 {
        Seq::empty()
    } else {
        encoded_files(contents.drop_last()) + encoded(contents.last())
    }
}

/// Law: per-file concatenation carries no state between files: encoding the
/// files of `c1` followed by the files of `c2` yields the encoding of `c1`'s
/// files followed by the encoding of `c2`'s files.
pub proof fn lemma_encoded_files_concat(c1: Seq<Seq<char>>, c2: Seq<Seq<char>>)
    ensures
        encoded_files(c1 + c2) == encoded_files(c1) + encoded_files(c2),
    decreases c2.len(),
{
    if c2.len() == 0 {
        assert(c1 + c2 =~= c1);
        assert(encoded_files(c1) + encoded_files(c2) =~= encoded_files(c1));
    } else {
        lemma_encoded_files_concat(c1, c2.drop_last());
        assert((c1 + c2).drop_last() =~= c1 + c2.drop_last());
        assert((c1 + c2).last() == c2.last());
        assert(encoded_files(c1 + c2) =~= encoded_files(c1) + encoded_files(c2));
    }
}

/// Encode the selected files' contents, given in file-processing order, into
/// one flat sequence: the concatenation of each file's per-character
/// encoding.
pub fn encode_genome_files(contents: &Vec<String>) -> (r: Vec<EncodedUnit>)
    ensures
        r@ == encoded_files(contents.deep_view()),
{
    let n: usize = contents.len();
    let mut binary: Vec<EncodedUnit> = Vec::new();
    let mut i: usize = 0;
    while i < n
        invariant
            i <= n,
            n == contents@.len(),
            binary@ == encoded_files(contents.deep_view().take(i as int)),
        decreases n - i,
    {
        let mut one = genome_to_binary(contents[i].clone());
        binary.append(&mut one);
        i = i + 1;
        proof {
            let dv = contents.deep_view();
            assert(dv.take(i as int).drop_last() =~= dv.take(i - 1 as int));
            assert(dv.take(i as int).last() == dv[i - 1 as int]);
            assert(dv[i - 1 as int] == contents@[i - 1 as int]@);
        }
    }
    proof {
        assert(contents.deep_view().take(n as int) =~= contents.deep_view());
    }
    binary
}

} // verus!
