use tailwindify::error::TailwindifyError;
use tailwindify::pipeline::{
    aggregate_results, calculate_group_count, create_file_groups, is_supported_extension,
    tally_outcomes, temp_path_for, GroupTally, ProcessingOutcome, SkipReason,
};

fn chars(s: &str) -> Vec<char> {
    s.chars().collect()
}

fn string(v: &[char]) -> String {
    v.iter().collect()
}

fn names(n: usize) -> Vec<String> {
    (0..n).map(|i| format!("file{}.js", i)).collect()
}

fn check_partition(n: usize, group_size: usize) -> Vec<Vec<String>> {
    let files = names(n);
    let groups = create_file_groups(files.clone(), group_size);
    // concatenation reproduces the input exactly
    let joined: Vec<String> = groups.iter().flatten().cloned().collect();
    assert_eq!(joined, files);
    // every group but the last is full; the last is never empty
    for (i, g) in groups.iter().enumerate() {
        if i + 1 < groups.len() {
            assert_eq!(g.len(), group_size);
        } else {
            assert!(0 < g.len() && g.len() <= group_size);
        }
    }
    // the number of groups is the total rounded up
    assert_eq!(groups.len(), n.div_ceil(group_size));
    groups
}

#[test]
fn partition_even_split() {
    let groups = check_partition(10, 2);
    assert_eq!(groups.len(), 5);
}

#[test]
fn partition_with_a_short_last_group() {
    let groups = check_partition(7, 3);
    assert_eq!(groups.len(), 3);
    assert_eq!(groups[2].len(), 1);
}

#[test]
fn partition_fewer_files_than_one_group() {
    let groups = check_partition(3, 5);
    assert_eq!(groups.len(), 1);
}

#[test]
fn partition_of_nothing_is_no_groups() {
    let groups = check_partition(0, 4);
    assert!(groups.is_empty());
}

#[test]
fn partition_one_file_per_group() {
    let groups = check_partition(6, 1);
    assert_eq!(groups.len(), 6);
}

#[test]
fn partition_driven_by_parallelism() {
    let gs = calculate_group_count(10, 4);
    assert_eq!(gs, 2);
    let groups = check_partition(10, gs);
    assert_eq!(groups.len(), 5);
}

#[test]
fn group_count_is_an_even_share_and_at_least_one() {
    assert_eq!(calculate_group_count(0, 8), 1);
    assert_eq!(calculate_group_count(7, 8), 1);
    assert_eq!(calculate_group_count(16, 8), 2);
    assert_eq!(calculate_group_count(17, 8), 2);
    assert_eq!(calculate_group_count(5, 1), 5);
}

#[test]
fn supported_extensions_without_regard_to_case() {
    for good in ["vue", "tsx", "jsx", "js", "ts", "VUE", "Tsx", "JS"] {
        assert!(is_supported_extension(&chars(good)), "{}", good);
    }
    for bad in ["txt", "vuex", "", "v", "jss", "rs", "t s"] {
        assert!(!is_supported_extension(&chars(bad)), "{}", bad);
    }
}

#[test]
fn temp_path_appends_the_fixed_suffix() {
    let t = temp_path_for(&chars("src/app.vue"));
    assert_eq!(string(&t), "src/app.vue.tmp");
}

#[test]
fn outcome_tally_counts_each_kind() {
    let os = vec![
        ProcessingOutcome::Rewritten,
        ProcessingOutcome::Unchanged,
        ProcessingOutcome::Skipped(SkipReason::ReadFailed),
        ProcessingOutcome::Rewritten,
        ProcessingOutcome::Skipped(SkipReason::WriteFailed),
    ];
    let t = tally_outcomes(&os);
    assert_eq!(t.rewritten, 2);
    assert_eq!(t.unchanged, 1);
    assert_eq!(t.skipped, 2);
}

#[test]
fn aggregate_sums_the_tallies_when_every_worker_succeeds() {
    let results = vec![
        Ok(GroupTally { rewritten: 2, unchanged: 1, skipped: 0 }),
        Ok(GroupTally { rewritten: 0, unchanged: 3, skipped: 1 }),
        Ok(GroupTally { rewritten: 5, unchanged: 0, skipped: 0 }),
    ];
    let summary = aggregate_results(results).unwrap();
    assert_eq!(summary.rewritten, 7);
    assert_eq!(summary.unchanged, 4);
    assert_eq!(summary.skipped, 1);
}

#[test]
fn aggregate_of_no_groups_is_the_empty_summary() {
    let summary = aggregate_results(Vec::new()).unwrap();
    assert_eq!(summary.rewritten, 0);
    assert_eq!(summary.unchanged, 0);
    assert_eq!(summary.skipped, 0);
}

#[test]
fn aggregate_surfaces_the_first_worker_fault() {
    let results = vec![
        Ok(GroupTally { rewritten: 2, unchanged: 1, skipped: 0 }),
        Err(TailwindifyError::ThreadError { source: "worker one".to_string() }),
        Err(TailwindifyError::ThreadError { source: "worker two".to_string() }),
    ];
    match aggregate_results(results) {
        Err(TailwindifyError::ThreadError { source }) => assert_eq!(source, "worker one"),
        other => panic!("expected the first fault, got {:?}", other),
    }
}

#[test]
fn error_constructors_carry_their_fields() {
    match TailwindifyError::directory_read_error("a/b".to_string(), "denied".to_string()) {
        TailwindifyError::DirectoryReadError { path, source } => {
            assert_eq!(path, "a/b");
            assert_eq!(source, "denied");
        }
        other => panic!("wrong variant: {:?}", other),
    }
    match TailwindifyError::file_read_error("f.js".to_string(), "gone".to_string()) {
        TailwindifyError::FileReadError { path, .. } => assert_eq!(path, "f.js"),
        other => panic!("wrong variant: {:?}", other),
    }
    match TailwindifyError::file_write_error("f.js".to_string(), "busy".to_string()) {
        TailwindifyError::FileWriteError { path, .. } => assert_eq!(path, "f.js"),
        other => panic!("wrong variant: {:?}", other),
    }
    match TailwindifyError::regex_error("(m|p)".to_string(), "bad".to_string()) {
        TailwindifyError::RegexError { pattern, .. } => assert_eq!(pattern, "(m|p)"),
        other => panic!("wrong variant: {:?}", other),
    }
    match TailwindifyError::temp_file_error("create".to_string(), "full".to_string()) {
        TailwindifyError::TempFileError { operation, .. } => assert_eq!(operation, "create"),
        other => panic!("wrong variant: {:?}", other),
    }
}
