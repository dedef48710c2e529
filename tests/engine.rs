use activity_bot::candidates::{is_skipped_dir, is_text_file_name};
use activity_bot::config::{parse_repo, ConfigError, RunConfig};
use activity_bot::lines::{parse_lines, render_lines, Ending};
use activity_bot::mutate::{mutate, mutate_content, plan_edits, Edit, Strategy};
use activity_bot::select::{pick_targets, select_targets};
use activity_bot::text::{branch_name, commit_message, format_stamp, merge_title, request_title};
use rand::rngs::StdRng;
use rand::SeedableRng;

fn names(n: usize) -> Vec<String> {
    (0..n).map(|i| format!("file_{}.txt", i)).collect()
}

fn stamp() -> Vec<u8> {
    b"2024-01-02 03:04:05".to_vec()
}

#[test]
fn repo_identity_splits_into_owner_and_name() {
    assert_eq!(parse_repo("octo/bot"), Ok(("octo".to_string(), "bot".to_string())));
    assert_eq!(parse_repo("octo"), Err(ConfigError::MalformedRepo));
    assert_eq!(parse_repo("a/b/c"), Err(ConfigError::MalformedRepo));
    assert_eq!(parse_repo("/bot"), Err(ConfigError::MalformedRepo));
    assert_eq!(parse_repo("octo/"), Err(ConfigError::MalformedRepo));
    assert_eq!(parse_repo(""), Err(ConfigError::MalformedRepo));
}

#[test]
fn config_rejects_inverted_ranges() {
    let ok = RunConfig::new("o/r", "/tmp/r".to_string(), 1, 3, 2, 4, false).unwrap();
    assert_eq!((ok.owner.as_str(), ok.name.as_str()), ("o", "r"));
    assert_eq!((ok.min_files, ok.max_files, ok.min_lines, ok.max_lines), (1, 3, 2, 4));
    assert_eq!(
        RunConfig::new("o/r", String::new(), 4, 3, 0, 0, false).unwrap_err(),
        ConfigError::InvertedFileRange
    );
    assert_eq!(
        RunConfig::new("o/r", String::new(), 0, 0, 5, 1, true).unwrap_err(),
        ConfigError::InvertedLineRange
    );
    assert_eq!(
        RunConfig::new("bad", String::new(), 4, 3, 5, 1, true).unwrap_err(),
        ConfigError::MalformedRepo
    );
}

#[test]
fn explicit_picks_shuffle_then_take_prefix() {
    let c = names(4);
    // step 0 swaps 0 and 2, step 1 swaps 1 and 3
    let r = pick_targets(&c, &vec![2, 3]);
    assert_eq!(r, vec!["file_2.txt".to_string(), "file_3.txt".to_string()]);
    let r = pick_targets(&c, &vec![0, 1, 2]);
    assert_eq!(r, vec!["file_0.txt", "file_1.txt", "file_2.txt"]);
    assert!(pick_targets(&c, &vec![]).is_empty());
}

#[test]
fn selection_count_within_range_and_distinct() {
    for seed in 0..200u64 {
        let mut rng = StdRng::seed_from_u64(seed);
        let c = names(10);
        let r = select_targets(&c, 2, 5, &mut rng);
        assert!(r.len() >= 2 && r.len() <= 5);
        let mut s = r.clone();
        s.sort();
        s.dedup();
        assert_eq!(s.len(), r.len());
        assert!(r.iter().all(|p| c.contains(p)));
    }
}

#[test]
fn selection_never_repeats_a_listed_path() {
    for seed in 0..50u64 {
        let mut rng = StdRng::seed_from_u64(seed);
        let c = vec!["a.rs".to_string(), "a.rs".to_string(), "b.rs".to_string()];
        let r = select_targets(&c, 3, 3, &mut rng);
        assert_eq!(r.len(), 2);
        assert_ne!(r[0], r[1]);
    }
}

#[test]
fn selection_clamps_to_available_candidates() {
    let mut rng = StdRng::seed_from_u64(1);
    let r = select_targets(&names(2), 3, 6, &mut rng);
    assert_eq!(r.len(), 2);
    let r = select_targets(&Vec::new(), 1, 1, &mut rng);
    assert!(r.is_empty());
}

#[test]
fn lines_round_trip_with_mixed_endings() {
    let content = b"a\r\nb\n\nc".to_vec();
    let ls = parse_lines(&content);
    assert_eq!(ls.len(), 4);
    assert_eq!(ls[0].body, b"a".to_vec());
    assert_eq!(ls[0].ending, Ending::CrLf);
    assert_eq!(ls[1].ending, Ending::Lf);
    assert_eq!(ls[2].body, Vec::<u8>::new());
    assert_eq!(ls[3].ending, Ending::Bare);
    assert_eq!(render_lines(&ls), content);
    assert!(parse_lines(&Vec::new()).is_empty());
}

fn edit(index: usize, strategy: Strategy, units: usize) -> Edit {
    Edit { index, strategy, units }
}

#[test]
fn annotate_appends_marker_to_code_line() {
    let c = b"let x = 1;\n".to_vec();
    let r = mutate_content(&c, &vec![edit(0, Strategy::Annotate, 0)], &stamp());
    assert_eq!(r, b"let x = 1; // bot 2024-01-02 03:04:05\n".to_vec());
}

#[test]
fn annotate_fills_blank_line_and_skips_comment() {
    let c = b"  \n# note\n".to_vec();
    let r = mutate_content(
        &c,
        &vec![edit(0, Strategy::Annotate, 0), edit(1, Strategy::Annotate, 0)],
        &stamp(),
    );
    assert_eq!(r, b"// bot 2024-01-02 03:04:05\n# note\n".to_vec());
}

#[test]
fn spacer_inserts_blank_line_with_same_ending() {
    let c = b"a\r\nb\r\n".to_vec();
    let r = mutate_content(&c, &vec![edit(0, Strategy::Spacer, 0)], &stamp());
    assert_eq!(r, b"a\r\n\r\nb\r\n".to_vec());
    let bare = b"a\nb".to_vec();
    let r = mutate_content(&bare, &vec![edit(1, Strategy::Spacer, 0)], &stamp());
    assert_eq!(r, bare);
}

#[test]
fn reindent_replaces_leading_whitespace() {
    let c = b"\t  x\n".to_vec();
    let r = mutate_content(&c, &vec![edit(0, Strategy::Reindent, 2)], &stamp());
    assert_eq!(r, b"        x\n".to_vec());
    let r = mutate_content(&c, &vec![edit(0, Strategy::Reindent, 0)], &stamp());
    assert_eq!(r, b"x\n".to_vec());
}

#[test]
fn reindent_rewrites_whitespace_only_lines() {
    let c = b"  \nx\n".to_vec();
    let r = mutate_content(&c, &vec![edit(0, Strategy::Reindent, 2)], &stamp());
    assert_eq!(r, b"        \nx\n".to_vec());
    let r = mutate_content(&c, &vec![edit(0, Strategy::Reindent, 0)], &stamp());
    assert_eq!(r, b"\nx\n".to_vec());
    let bare = b"a\n  ".to_vec();
    let r = mutate_content(&bare, &vec![edit(1, Strategy::Reindent, 0)], &stamp());
    assert_eq!(r, b"a\n    ".to_vec());
    assert_eq!(parse_lines(&r).len(), 2);
}

#[test]
fn todo_stamp_overwrites_line() {
    let c = b"one\ntwo".to_vec();
    let r = mutate_content(&c, &vec![edit(1, Strategy::TodoStamp, 0)], &stamp());
    assert_eq!(r, b"one\n// TODO: 2024-01-02 03:04:05".to_vec());
}

#[test]
fn random_mutation_keeps_crlf_and_reads_back() {
    let c = b"fn a() {\r\n    1\r\n}\r\n\r\n// end\r\n".to_vec();
    for seed in 0..100u64 {
        let mut rng = StdRng::seed_from_u64(seed);
        let r = mutate(&c, 1, 3, &stamp(), &mut rng);
        let text = String::from_utf8(r.clone()).unwrap();
        assert!(text.ends_with("\r\n"));
        assert_eq!(text.matches('\n').count(), text.matches("\r\n").count());
        assert_eq!(render_lines(&parse_lines(&r)), r);
    }
}

#[test]
fn empty_file_is_left_empty() {
    let mut rng = StdRng::seed_from_u64(3);
    assert!(mutate(&Vec::new(), 1, 4, &stamp(), &mut rng).is_empty());
}

#[test]
fn planned_edits_stay_in_bounds() {
    for seed in 0..100u64 {
        let mut rng = StdRng::seed_from_u64(seed);
        let e = plan_edits(5, 2, 9, &mut rng);
        assert!(e.len() >= 2 && e.len() <= 5);
        assert!(e.iter().all(|x| x.index < 5 && x.units <= 3));
    }
}

#[test]
fn names_and_messages() {
    assert_eq!(branch_name(1700000000), "bot-update-1700000000");
    assert_eq!(branch_name(0), "bot-update-0");
    assert_eq!(commit_message(3), "Update 3 files");
    assert_eq!(merge_title(42), "Merged bot update PR #42");
    assert_eq!(request_title(&stamp()), "Bot update 2024-01-02 03:04:05");
}

#[test]
fn stamps_from_chrono() {
    assert_eq!(format_stamp(0), Some(b"1970-01-01 00:00:00".to_vec()));
    assert_eq!(format_stamp(1700000000), Some(b"2023-11-14 22:13:20".to_vec()));
    assert_eq!(format_stamp(253402300799), Some(b"9999-12-31 23:59:59".to_vec()));
    assert_eq!(format_stamp(-1), None);
    assert_eq!(format_stamp(253402300800), None);
}

#[test]
fn candidate_filters() {
    assert!(is_text_file_name("lib.rs"));
    assert!(is_text_file_name("README.MD"));
    assert!(is_text_file_name("a.b.yml"));
    assert!(!is_text_file_name("Cargo.lock"));
    assert!(!is_text_file_name(".md"));
    assert!(!is_text_file_name("noext"));
    assert!(!is_text_file_name("image.png"));
    assert!(is_skipped_dir(".git"));
    assert!(is_skipped_dir("target"));
    assert!(is_skipped_dir("Cargo.lock"));
    assert!(!is_skipped_dir("src"));
}

#[test]
fn default_seed_has_stub_and_readme() {
    let s = activity_bot::candidates::seed_files();
    assert_eq!(s.len(), 2);
    assert_eq!(s[0].path, "src/lib.rs");
    assert!(s[0].content.starts_with("// Sample Rust library\n"));
    assert!(!s[0].keep_existing);
    assert_eq!(s[1].path, "README.md");
    assert!(s[1].keep_existing);
}
