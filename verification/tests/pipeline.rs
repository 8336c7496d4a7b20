use genome_encoder::discovery::FsEntry;
use genome_encoder::pipeline::{encode_genome_files, plan_run};

fn pipe_entry(path: &str, name: &str, is_file: bool) -> FsEntry {
    FsEntry {
        path: path.to_string(),
        name: name.to_string(),
        is_file,
    }
}

#[test]
fn end_to_end_run() {
    let entries = vec![
        pipe_entry("input", "input", false),
        pipe_entry("input/assembly_data_report.jsonl", "assembly_data_report.jsonl", true),
        pipe_entry("input/dataset_catalog.json", "dataset_catalog.json", true),
        pipe_entry("input/sequence_report.jsonl", "sequence_report.jsonl", true),
        pipe_entry("input/unplaced.scaf.fna", "unplaced.scaf.fna", true),
        pipe_entry("input/GCA_000001", "GCA_000001", false),
        pipe_entry("input/GCA_000001/chr1.fna", "chr1.fna", true),
        pipe_entry("input/GCA_000001/chrX.fna", "chrX.fna", true),
    ];
    let plan = plan_run(true, &entries);
    assert!(plan.metadata_ok);
    assert_eq!(plan.assembly_dir, Some("input/GCA_000001".to_string()));
    assert_eq!(
        plan.genome_files,
        vec!["chr1.fna".to_string(), "chrX.fna".to_string()]
    );

    // The selected files' contents, read in file-processing order.
    let contents = vec![String::from("ACGT"), String::from("TTAA")];
    let binary = encode_genome_files(&contents);
    assert_eq!(
        binary,
        vec![
            (1, 1),
            (1, 0),
            (0, 1),
            (0, 0),
            (0, 0),
            (0, 0),
            (1, 1),
            (1, 1),
        ]
    );
}

#[test]
fn encode_no_files_yields_empty() {
    let contents: Vec<String> = Vec::new();
    assert!(encode_genome_files(&contents).is_empty());
}

#[test]
fn encode_empty_file_adds_nothing() {
    let contents = vec![String::from("AC"), String::new(), String::from("G")];
    let binary = encode_genome_files(&contents);
    assert_eq!(binary, vec![(1, 1), (1, 0), (0, 1)]);
}
