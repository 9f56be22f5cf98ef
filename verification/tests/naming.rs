use rip::candidate_file_name;
use rip::plan_output_path;
use rip::sanitize_filename;
use rip::u64_to_string;

#[test]
fn test_u64_rendering() {
    assert_eq!(u64_to_string(0), "0");
    assert_eq!(u64_to_string(7), "7");
    assert_eq!(u64_to_string(42), "42");
    assert_eq!(u64_to_string(1234567890123456789), "1234567890123456789");
    assert_eq!(u64_to_string(u64::MAX), "18446744073709551615");
}

#[test]
fn test_sanitize_replaces_banned_characters() {
    assert_eq!(sanitize_filename("a/b:c*d?e\"f<g>h|i\\j"), "a_b_c_d_e_f_g_h_i_j");
    assert_eq!(sanitize_filename("tab\tand\x00nul"), "tab_and_nul");
    assert_eq!(sanitize_filename("\u{7f}\u{9f}\u{a0}"), "__\u{a0}");
    assert_eq!(sanitize_filename("日本語 テスト.txt"), "日本語 テスト.txt");
    assert_eq!(sanitize_filename(""), "");
}

#[test]
fn test_candidate_names_number_the_collisions() {
    assert_eq!(candidate_file_name("docs", 0), "docs.zip");
    assert_eq!(candidate_file_name("docs", 1), "docs (1).zip");
    assert_eq!(candidate_file_name("docs", 2), "docs (2).zip");
    assert_eq!(candidate_file_name("docs", 12), "docs (12).zip");
}

#[test]
fn test_candidate_names_are_distinct() {
    let mut seen: Vec<String> = Vec::new();
    for k in 0..50u64 {
        let name = candidate_file_name("アーカイブ", k);
        assert!(!seen.contains(&name));
        seen.push(name);
    }
}

#[test]
fn test_planner_picks_primary_name_when_free() {
    // Under a parent that does not exist, the first candidate is free.
    let p = plan_output_path("/nonexistent-parent-for-rip-tests", Some("docs"));
    assert_eq!(p, "/nonexistent-parent-for-rip-tests/docs.zip");
}

#[test]
fn test_planner_sanitizes_the_base_name() {
    let p = plan_output_path("/nonexistent-parent-for-rip-tests", Some("a:b/c"));
    assert_eq!(p, "/nonexistent-parent-for-rip-tests/a_b_c.zip");
}

#[test]
fn test_planner_falls_back_without_a_name() {
    let p = plan_output_path("/nonexistent-parent-for-rip-tests", None);
    assert_eq!(p, "/nonexistent-parent-for-rip-tests/archive.zip");
}
