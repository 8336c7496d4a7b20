//! Decisions over a directory traversal: metadata presence, assembly
//! directory location, and sequence-file selection.
//!
//! The traversal itself is an external collaborator. It hands the library
//! one [`FsEntry`] per entry of the subtree, in whatever order it walks, and
//! every rule here is stated and verified over that list.

use vstd::prelude::*;
use crate::text::{str_eq, str_starts_with, str_ends_with};

verus! {

/// One entry observed during a directory traversal: its full path, its base
/// name, and whether it is a regular file (as opposed to a directory).
pub struct FsEntry {
    pub path: String,
    pub name: String,
    pub is_file: bool,
}

/// The four metadata file names that must all be present somewhere under the
/// input root before processing proceeds.
pub open spec fn required_metadata_names() -> Seq<Seq<char>> {
    seq![
        "assembly_data_report.jsonl"@,
        "dataset_catalog.json"@,
        "sequence_report.jsonl"@,
        "unplaced.scaf.fna"@,
    ]
}

/// True when some regular file among `entries` has exactly the name `name`.
pub open spec fn file_found(entries: Seq<FsEntry>, name: Seq<char>) -> bool {
    exists|i: int| 0 <= i < entries.len() && entries[i].is_file && entries[i].name@ == name
}

/// True when every required metadata name is found among `entries`,
/// regardless of depth or sibling structure.
pub open spec fn all_metadata_found(entries: Seq<FsEntry>) -> bool {
    forall|k: int|
        0 <= k < required_metadata_names().len() ==> file_found(
            entries,
            required_metadata_names()[k],
        )
}

proof fn lemma_file_found_push(entries: Seq<FsEntry>, e: FsEntry, name: Seq<char>)
    ensures
        file_found(entries.push(e), name) == (file_found(entries, name) || (e.is_file && e.name@
            == name)),
{
    if file_found(entries, name) {
        let i = choose|i: int|
            0 <= i < entries.len() && entries[i].is_file && entries[i].name@ == name;
        assert(entries.push(e)[i].is_file && entries.push(e)[i].name@ == name);
    }
    if e.is_file && e.name@ == name {
        let n = entries.len() as int;
        assert(entries.push(e)[n].is_file && entries.push(e)[n].name@ == name);
    }
    if file_found(entries.push(e), name) && !(e.is_file && e.name@ == name) {
        let i = choose|i: int|
            0 <= i < entries.push(e).len() && entries.push(e)[i].is_file && entries.push(
                e,
            )[i].name@ == name;
        assert(i < entries.len());
        assert(entries[i].is_file && entries[i].name@ == name);
    }
}

/// Check that every required metadata file is present among the traversal's
/// entries. Fails closed: when the input root does not exist (so that no
/// traversal could be taken), the check is false whatever `entries` holds.
pub fn check_for_data_files(root_exists: bool, entries: &Vec<FsEntry>) -> (r: bool)
    ensures
        r == (root_exists && all_metadata_found(entries@)),
{
    if !root_exists {
        return false;
    }
    let mut found0: bool = false;
    let mut found1: bool = false;
    let mut found2: bool = false;
    let mut found3: bool = false;
    let n: usize = entries.len();
    let mut i: usize = 0;
    while i < n
        invariant
            i <= n,
            n == entries@.len(),
            found0 == file_found(entries@.take(i as int), required_metadata_names()[0]),
            found1 == file_found(entries@.take(i as int), required_metadata_names()[1]),
            found2 == file_found(entries@.take(i as int), required_metadata_names()[2]),
            found3 == file_found(entries@.take(i as int), required_metadata_names()[3]),
        decreases n - i,
    {
        let e = &entries[i];
        if e.is_file {
            if str_eq(e.name.as_str(), "assembly_data_report.jsonl") {
                found0 = true;
            }
            if str_eq(e.name.as_str(), "dataset_catalog.json") {
                found1 = true;
            }
            if str_eq(e.name.as_str(), "sequence_report.jsonl") {
                found2 = true;
            }
            if str_eq(e.name.as_str(), "unplaced.scaf.fna") {
                found3 = true;
            }
        }
        i = i + 1;
        proof {
            assert(entries@.take(i as int) =~= entries@.take(i - 1 as int).push(
                entries@[i - 1 as int],
            ));
            lemma_file_found_push(
                entries@.take(i - 1 as int),
                entries@[i - 1 as int],
                required_metadata_names()[0],
            );
            lemma_file_found_push(
                entries@.take(i - 1 as int),
                entries@[i - 1 as int],
                required_metadata_names()[1],
            );
            lemma_file_found_push(
                entries@.take(i - 1 as int),
                entries@[i - 1 as int],
                required_metadata_names()[2],
            );
            lemma_file_found_push(
                entries@.take(i - 1 as int),
                entries@[i - 1 as int],
                required_metadata_names()[3],
            );
        }
    }
    proof {
        assert(entries@.take(n as int) =~= entries@);
    }
    found0 && found1 && found2 && found3
}

/// True when a traversal entry's base name carries the assembly directory
/// prefix.
pub open spec fn is_assembly_name(name: Seq<char>) -> bool {
    "GCA_"@.is_prefix_of(name)
}

/// Find the assembly directory: return the path of the first entry, in
/// traversal order, whose base name starts with `GCA_` (files and
/// directories both qualify), or `None` when no entry does.
pub fn locate_assembly(entries: &Vec<FsEntry>) -> (r: Option<String>)
    ensures
        (r is Some) <==> exists|i: int|
            0 <= i < entries@.len() && is_assembly_name(entries@[i].name@),
        r matches Some(p) ==> exists|i: int|
            0 <= i < entries@.len() && is_assembly_name(entries@[i].name@) && p@
                == entries@[i].path@ && (forall|j: int|
                0 <= j < i ==> !is_assembly_name(entries@[j].name@)),
{
    let n: usize = entries.len();
    let mut i: usize = 0;
    while i < n
        invariant
            i <= n,
            n == entries@.len(),
            forall|j: int| 0 <= j < i ==> !is_assembly_name(entries@[j].name@),
        decreases n - i,
    {
        let e = &entries[i];
        if str_starts_with(e.name.as_str(), "GCA_") {
            proof {
                assert(is_assembly_name(entries@[i as int].name@));
            }
            return Some(e.path.clone());
        }
        i = i + 1;
    }
    None
}

/// True when a base name follows the sequence-file naming convention: it
/// starts with `chr` and ends with `.fna`.
pub open spec fn is_sequence_file_name(name: Seq<char>) -> bool {
    "chr"@.is_prefix_of(name) && ".fna"@.is_suffix_of(name)
}

/// True when a traversal entry is a regular file whose name follows the
/// sequence-file naming convention.
pub open spec fn is_sequence_file(e: FsEntry) -> bool {
    e.is_file && is_sequence_file_name(e.name@)
}

/// The names of the sequence files among `entries`, in traversal order.
pub open spec fn selected_names(entries: Seq<FsEntry>) -> Seq<Seq<char>>
    decreases entries.len(),
{
    if entries.len() == 0 {
        Seq::empty()
    } else {
        selected_names(entries.drop_last()) + (if is_sequence_file(entries.last()) {
            seq![entries.last().name@]
        } else {
            Seq::empty()
        })
    }
}

/// Select the genome sequence files among the traversal's entries: the names
/// of the regular files that start with `chr` and end with `.fna`, in
/// traversal order.
pub fn get_genome_files(entries: &Vec<FsEntry>) -> (r: Vec<String>)
    ensures
        r.deep_view() == selected_names(entries@),
{
    let n: usize = entries.len();
    let mut files: Vec<String> = Vec::new();
    let mut i: usize = 0;
    while i < n
        invariant
            i <= n,
            n == entries@.len(),
            files.deep_view() == selected_names(entries@.take(i as int)),
        decreases n - i,
    {
        let e = &entries[i];
        let ghost before: Seq<Seq<char>> = files.deep_view();
        if e.is_file && str_ends_with(e.name.as_str(), ".fna") && str_starts_with(
            e.name.as_str(),
            "chr",
        ) {
            files.push(e.name.clone());
            proof {
                assert(files.deep_view() =~= before.push(entries@[i as int].name@));
            }
        }
        i = i + 1;
        proof {
            let prev = entries@.take(i - 1 as int);
            assert(entries@.take(i as int).drop_last() =~= prev);
            assert(entries@.take(i as int).last() == entries@[i - 1 as int]);
            if is_sequence_file(entries@[i - 1 as int]) {
                assert(files.deep_view() =~= selected_names(entries@.take(i as int)));
            } else {
                assert(selected_names(entries@.take(i as int)) =~= selected_names(prev));
            }
        }
    }
    proof {
        assert(entries@.take(n as int) =~= entries@);
    }
    files
}

} // verus!
