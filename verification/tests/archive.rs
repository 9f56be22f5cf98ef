use std::io::Cursor;
use std::io::Read;

use rip::ArchiveError;
use rip::BuildConfig;
use rip::EntryKind;
use rip::RawEntry;
use rip::build_archive;

fn comps(parts: &[&str]) -> Vec<String> {
    parts.iter().map(|p| p.to_string()).collect()
}

fn file_entry(parts: &[&str], data: &[u8]) -> RawEntry {
    RawEntry { path: comps(parts), kind: EntryKind::File, data: data.to_vec() }
}

fn dir_entry(parts: &[&str]) -> RawEntry {
    RawEntry { path: comps(parts), kind: EntryKind::Directory, data: Vec::new() }
}

fn symlink_entry(parts: &[&str]) -> RawEntry {
    RawEntry { path: comps(parts), kind: EntryKind::Symlink, data: Vec::new() }
}

fn unlimited() -> BuildConfig {
    BuildConfig { zip64: false, max_file_size: None, max_total_size: None }
}

fn read_back(bytes: Vec<u8>) -> zip::ZipArchive<Cursor<Vec<u8>>> {
    zip::ZipArchive::new(Cursor::new(bytes)).expect("the produced bytes form a ZIP archive")
}

fn member_content(ar: &mut zip::ZipArchive<Cursor<Vec<u8>>>, name: &str) -> Vec<u8> {
    let mut f = ar.by_name(name).expect("member present");
    let mut buf = Vec::new();
    f.read_to_end(&mut buf).expect("member readable");
    buf
}

#[test]
fn test_two_files_round_trip() {
    let root = comps(&["docs"]);
    let entries = vec![
        dir_entry(&["docs"]),
        file_entry(&["docs", "a.txt"], b"aaaaaaaaaa"),
        dir_entry(&["docs", "sub"]),
        file_entry(&["docs", "sub", "b.txt"], b"bbbbbbbbbbbbbbbbbbbb"),
    ];
    let out = build_archive(&root, &entries, &unlimited()).expect("build succeeds");
    assert_eq!(out.member_names, vec!["a.txt".to_string(), "sub/b.txt".to_string()]);
    let mut ar = read_back(out.bytes);
    assert_eq!(ar.len(), 2);
    assert_eq!(member_content(&mut ar, "a.txt"), b"aaaaaaaaaa".to_vec());
    assert_eq!(member_content(&mut ar, "sub/b.txt"), b"bbbbbbbbbbbbbbbbbbbb".to_vec());
}

#[test]
fn test_japanese_filename() {
    let root = comps(&["テスト"]);
    let entries = vec![file_entry(&["テスト", "日本語.txt"], "テストデータ".as_bytes())];
    let out = build_archive(&root, &entries, &unlimited()).expect("build succeeds");
    let ar = read_back(out.bytes);
    let names: Vec<String> = ar.file_names().map(|s| s.to_string()).collect();
    assert!(names.contains(&"日本語.txt".to_string()));
}

#[test]
fn test_complex_japanese_filename() {
    let root = comps(&["テスト"]);
    let name = "🗾日本語_テスト！＃＄％.txt";
    let entries = vec![file_entry(&["テスト", name], "テストデータ".as_bytes())];
    let out = build_archive(&root, &entries, &unlimited()).expect("build succeeds");
    let ar = read_back(out.bytes);
    let names: Vec<String> = ar.file_names().map(|s| s.to_string()).collect();
    assert!(names.contains(&name.to_string()));
}

#[test]
fn test_nested_japanese_directories() {
    let root = comps(&["テスト"]);
    let entries = vec![
        dir_entry(&["テスト", "フォルダー1"]),
        dir_entry(&["テスト", "フォルダー1", "フォルダー2"]),
        dir_entry(&["テスト", "フォルダー1", "フォルダー2", "フォルダー3"]),
        file_entry(
            &["テスト", "フォルダー1", "フォルダー2", "フォルダー3", "テスト.txt"],
            "テストデータ".as_bytes(),
        ),
    ];
    let out = build_archive(&root, &entries, &unlimited()).expect("build succeeds");
    assert_eq!(
        out.member_names,
        vec!["フォルダー1/フォルダー2/フォルダー3/テスト.txt".to_string()]
    );
    let ar = read_back(out.bytes);
    let names: Vec<String> = ar.file_names().map(|s| s.to_string()).collect();
    assert!(names.iter().any(|n| n.ends_with("テスト.txt")));
    assert!(names.iter().all(|n| !n.contains('\\')));
}

#[test]
fn test_member_names_use_forward_slashes() {
    // A component may itself hold a backslash on Unix hosts; it is kept,
    // while the separator between components is always `/`.
    let root = comps(&["d"]);
    let entries = vec![
        file_entry(&["d", "x", "y", "z.txt"], b"z"),
        file_entry(&["d", "back\\slash.txt"], b"b"),
    ];
    let out = build_archive(&root, &entries, &unlimited()).expect("build succeeds");
    assert_eq!(
        out.member_names,
        vec!["x/y/z.txt".to_string(), "back\\slash.txt".to_string()]
    );
}

#[test]
fn test_parent_segment_entries_are_skipped() {
    let root = comps(&["d"]);
    let entries = vec![
        file_entry(&["d", "..", "escape.txt"], b"nope"),
        file_entry(&["d", "ok.txt"], b"fine"),
    ];
    let out = build_archive(&root, &entries, &unlimited()).expect("build succeeds");
    assert_eq!(out.member_names, vec!["ok.txt".to_string()]);
    let ar = read_back(out.bytes);
    assert_eq!(ar.len(), 1);
}

#[test]
fn test_symlinks_are_never_members() {
    let root = comps(&["d"]);
    let entries = vec![
        symlink_entry(&["d", "link-to-outside"]),
        file_entry(&["d", "real.txt"], b"real"),
        symlink_entry(&["d", "sub", "loop"]),
    ];
    let out = build_archive(&root, &entries, &unlimited()).expect("build succeeds");
    assert_eq!(out.member_names, vec!["real.txt".to_string()]);
    let ar = read_back(out.bytes);
    let names: Vec<String> = ar.file_names().map(|s| s.to_string()).collect();
    assert_eq!(names, vec!["real.txt".to_string()]);
}

#[test]
fn test_entry_outside_root_fails_path() {
    let root = comps(&["d"]);
    let entries = vec![file_entry(&["elsewhere", "a.txt"], b"a")];
    let r = build_archive(&root, &entries, &unlimited());
    assert!(matches!(r, Err(ArchiveError::PathFailure)));
}

#[test]
fn test_per_file_cap_skips_only_the_large_file() {
    let root = comps(&["d"]);
    let entries = vec![
        file_entry(&["d", "big.bin"], &[0u8; 64]),
        file_entry(&["d", "small.bin"], &[1u8; 8]),
    ];
    let cfg = BuildConfig { zip64: false, max_file_size: Some(16), max_total_size: None };
    let out = build_archive(&root, &entries, &cfg).expect("build succeeds");
    assert_eq!(out.member_names, vec!["small.bin".to_string()]);
    let mut ar = read_back(out.bytes);
    assert_eq!(ar.len(), 1);
    assert_eq!(member_content(&mut ar, "small.bin"), vec![1u8; 8]);
}

#[test]
fn test_total_cap_aborts_the_build() {
    let root = comps(&["d"]);
    let entries = vec![
        file_entry(&["d", "one.bin"], &[0u8; 10]),
        file_entry(&["d", "two.bin"], &[0u8; 10]),
    ];
    let cfg = BuildConfig { zip64: false, max_file_size: None, max_total_size: Some(15) };
    let r = build_archive(&root, &entries, &cfg);
    assert!(matches!(r, Err(ArchiveError::LimitExceeded)));
}

#[test]
fn test_total_cap_exactly_met_is_allowed() {
    let root = comps(&["d"]);
    let entries = vec![
        file_entry(&["d", "one.bin"], &[0u8; 10]),
        file_entry(&["d", "two.bin"], &[0u8; 5]),
    ];
    let cfg = BuildConfig { zip64: false, max_file_size: None, max_total_size: Some(15) };
    let out = build_archive(&root, &entries, &cfg).expect("build succeeds");
    assert_eq!(out.member_names.len(), 2);
}

#[test]
fn test_duplicate_member_name_is_a_format_failure() {
    let root = comps(&["d"]);
    let entries = vec![
        file_entry(&["d", "same.txt"], b"one"),
        file_entry(&["d", "same.txt"], b"two"),
    ];
    let r = build_archive(&root, &entries, &unlimited());
    assert!(matches!(r, Err(ArchiveError::FormatFailure(_))));
}

#[test]
fn test_empty_directory_gives_empty_archive() {
    let root = comps(&["d"]);
    let entries = vec![dir_entry(&["d"])];
    let out = build_archive(&root, &entries, &unlimited()).expect("build succeeds");
    assert!(out.member_names.is_empty());
    let ar = read_back(out.bytes);
    assert_eq!(ar.len(), 0);
}

#[test]
fn test_zip64_option_setting() {
    let root = comps(&["t"]);
    let entries = vec![file_entry(&["t", "test.txt"], b"test")];
    let cfg = BuildConfig { zip64: true, max_file_size: None, max_total_size: None };
    let out = build_archive(&root, &entries, &cfg).expect("build succeeds with ZIP64 options");
    let mut ar = read_back(out.bytes);
    assert_eq!(member_content(&mut ar, "test.txt"), b"test".to_vec());
}

#[test]
fn test_deep_nesting_round_trip() {
    let root = comps(&["長いパス"]);
    let mut path: Vec<&str> = vec!["長いパス"];
    let dirs: Vec<String> = (1..20).map(|i| format!("深いディレクトリ_{}", i)).collect();
    for d in &dirs {
        path.push(d.as_str());
    }
    path.push("テスト.txt");
    let entries = vec![file_entry(&path, "深い階層のテスト".as_bytes())];
    let out = build_archive(&root, &entries, &unlimited()).expect("build succeeds");
    let ar = read_back(out.bytes);
    let names: Vec<String> = ar.file_names().map(|s| s.to_string()).collect();
    assert!(names.iter().any(|n| n.ends_with("テスト.txt")));
    assert_eq!(names[0].matches('/').count(), 19);
}

#[test]
fn test_overlong_member_name_is_a_format_failure() {
    // A name longer than the format's 65535-byte name field is refused
    // by the writer and surfaces as a format failure.
    let root = comps(&["d"]);
    let long_name: String = "x".repeat(70000);
    let entries = vec![file_entry(&["d", long_name.as_str()], b"data")];
    let r = build_archive(&root, &entries, &unlimited());
    assert!(matches!(r, Err(ArchiveError::FormatFailure(_))));
}
