use stoffel::compile::{
    batch_succeeded, build_compiler_args, find_stfl_files, plan_batch_output, summarize_batch,
    validate_opt_level,
};

#[test]
fn single_file_arguments_minimal() {
    let args = build_compiler_args("src/main.stfl", &None, false, false, false, 0);
    assert_eq!(args, vec![String::from("src/main.stfl")]);
}

#[test]
fn single_file_arguments_full() {
    let args = build_compiler_args(
        "src/main.stfl",
        &Some(String::from("out.bin")),
        true,
        true,
        true,
        3,
    );
    assert_eq!(
        args,
        vec![
            String::from("src/main.stfl"),
            String::from("-o"),
            String::from("out.bin"),
            String::from("--binary"),
            String::from("--disassemble"),
            String::from("--print-ir"),
            String::from("-O3"),
        ]
    );
}

#[test]
fn optimization_level_zero_passes_no_flag() {
    let args = build_compiler_args("a.stfl", &None, true, false, false, 0);
    assert_eq!(args, vec![String::from("a.stfl"), String::from("--binary")]);
}

#[test]
fn optimization_level_bounds() {
    assert!(validate_opt_level(0).is_ok());
    assert!(validate_opt_level(3).is_ok());
    let e = validate_opt_level(4).unwrap_err();
    assert_eq!(e, "Invalid optimization level: 4. Must be 0-3.");
}

#[test]
fn custom_output_ignored_for_multi_file_batches() {
    let (effective, warned) = plan_batch_output(&Some(String::from("out.bin")), 3);
    assert!(warned);
    assert_eq!(effective, None);
}

#[test]
fn custom_output_honored_for_single_file_batch() {
    let (effective, warned) = plan_batch_output(&Some(String::from("out.bin")), 1);
    assert!(!warned);
    assert_eq!(effective, Some(String::from("out.bin")));
}

#[test]
fn no_output_never_warns() {
    let (effective, warned) = plan_batch_output(&None, 5);
    assert!(!warned);
    assert_eq!(effective, None);
}

#[test]
fn batch_counts_add_up() {
    let results = vec![true, false, true, true, false];
    let summary = summarize_batch(&results);
    assert_eq!(summary.total, 5);
    assert_eq!(summary.successful, 3);
    assert_eq!(summary.failed, 2);
    assert_eq!(summary.successful + summary.failed, summary.total);
    assert!(!batch_succeeded(&summary));
}

#[test]
fn batch_with_no_failures_succeeds() {
    let results = vec![true, true];
    let summary = summarize_batch(&results);
    assert_eq!(summary.failed, 0);
    assert!(batch_succeeded(&summary));
}

#[test]
fn empty_batch_succeeds() {
    let results: Vec<bool> = vec![];
    let summary = summarize_batch(&results);
    assert_eq!(summary.total, 0);
    assert!(batch_succeeded(&summary));
}

#[test]
fn source_discovery_filters_and_sorts() {
    let paths = vec![
        String::from("src/zeta.stfl"),
        String::from("src/alpha.stfl"),
        String::from("README.md"),
        String::from("src/nested/beta.stfl"),
        String::from("src/notes.txt"),
    ];
    let found = find_stfl_files(paths);
    assert_eq!(
        found,
        vec![
            String::from("src/alpha.stfl"),
            String::from("src/nested/beta.stfl"),
            String::from("src/zeta.stfl"),
        ]
    );
}

#[test]
fn source_discovery_keeps_duplicates_and_order_is_deterministic() {
    let paths = vec![
        String::from("b.stfl"),
        String::from("a.stfl"),
        String::from("b.stfl"),
    ];
    let found = find_stfl_files(paths);
    assert_eq!(
        found,
        vec![String::from("a.stfl"), String::from("b.stfl"), String::from("b.stfl")]
    );
}

#[test]
fn source_discovery_empty_input() {
    let found = find_stfl_files(Vec::new());
    assert!(found.is_empty());
}
