use factory_archive::block::{parse_file, NamedPayload};
use factory_archive::extract::{advance, next_action, normalize_path, Action, Phase};
use factory_archive::report::{decimal, status_line};

fn record(path: &str, payload: &[u8]) -> NamedPayload {
    NamedPayload { file_name: path.to_string(), payload: payload.to_vec() }
}

fn field(data: &[u8]) -> Vec<u8> {
    let mut out: Vec<u8> = (data.len() as u32).to_be_bytes().to_vec();
    out.extend_from_slice(data);
    out
}

fn path_field(text: &str) -> Vec<u8> {
    let mut raw: Vec<u8> = Vec::new();
    for u in text.encode_utf16() {
        raw.extend_from_slice(&u.to_be_bytes());
    }
    field(&raw)
}

/// Runs one record with every action succeeding; returns the lines printed,
/// the directories asked for (by file path) and the files written.
fn run(index: usize, rec: &NamedPayload, dry_run: bool) -> (Vec<String>, Vec<String>, Vec<String>, Phase) {
    let mut lines: Vec<String> = Vec::new();
    let mut dirs: Vec<String> = Vec::new();
    let mut files: Vec<String> = Vec::new();
    let mut phase = Phase::Pending;
    let mut steps: usize = 0;
    loop {
        assert!(steps < 10);
        steps += 1;
        match next_action(phase, dry_run, index, rec) {
            Action::Report(line) => lines.push(line),
            Action::Skip => {}
            Action::EnsureParent(path) => dirs.push(path),
            Action::Write(path) => files.push(path),
            Action::NextRecord => return (lines, dirs, files, phase),
            Action::Abort => panic!("no action failed"),
        }
        phase = advance(phase, dry_run, true);
    }
}

#[test]
fn decimal_writes_plain_numbers() {
    assert_eq!(decimal(0), "0");
    assert_eq!(decimal(7), "7");
    assert_eq!(decimal(9), "9");
    assert_eq!(decimal(10), "10");
    assert_eq!(decimal(105), "105");
    assert_eq!(decimal(1234567890), "1234567890");
    assert_eq!(decimal(usize::MAX), format!("{}", usize::MAX));
}

#[test]
fn status_line_has_index_path_and_size() {
    assert_eq!(status_line(0, &record("/x.txt", b"hi")), "Block 0: /x.txt size 2");
    assert_eq!(status_line(12, &record("y/z.bin", &[0, 1, 2])), "Block 12: y/z.bin size 3");
    assert_eq!(status_line(3, &record("", &[])), "Block 3:  size 0");
}

#[test]
fn leading_separator_is_stripped_once() {
    assert_eq!(normalize_path("/a/b.txt"), "a/b.txt");
    assert_eq!(normalize_path("//a"), "/a");
    assert_eq!(normalize_path("/"), "");
}

#[test]
fn relative_path_is_unchanged() {
    assert_eq!(normalize_path("a/b.txt"), "a/b.txt");
    assert_eq!(normalize_path(""), "");
    assert_eq!(normalize_path("../up"), "../up");
    assert_eq!(normalize_path("\u{e9}/x"), "\u{e9}/x");
}

#[test]
fn normalization_counts_characters_not_bytes() {
    assert_eq!(normalize_path("/\u{1F600}/\u{e9}"), "\u{1F600}/\u{e9}");
}

#[test]
fn dry_run_reports_and_leaves_disk_alone() {
    let rec = record("/a/b.txt", b"payload");
    let (dry_lines, dry_dirs, dry_files, dry_end) = run(4, &rec, true);
    let (lines, dirs, files, end) = run(4, &rec, false);
    assert_eq!(dry_lines, lines);
    assert_eq!(dry_lines, vec!["Block 4: /a/b.txt size 7".to_string()]);
    assert!(dry_dirs.is_empty());
    assert!(dry_files.is_empty());
    assert_eq!(dry_end, Phase::DryRunDone);
    assert_eq!(dirs, vec!["a/b.txt".to_string()]);
    assert_eq!(files, vec!["a/b.txt".to_string()]);
    assert_eq!(end, Phase::Written);
}

#[test]
fn phases_follow_in_order() {
    assert_eq!(advance(Phase::Pending, false, true), Phase::Reported);
    assert_eq!(advance(Phase::Reported, false, true), Phase::DirEnsured);
    assert_eq!(advance(Phase::DirEnsured, false, true), Phase::Written);
    assert_eq!(advance(Phase::Pending, true, true), Phase::Reported);
    assert_eq!(advance(Phase::Reported, true, true), Phase::DryRunDone);
    assert_eq!(advance(Phase::Written, false, true), Phase::Written);
    assert_eq!(advance(Phase::DryRunDone, true, false), Phase::DryRunDone);
}

#[test]
fn any_failure_stops_the_run() {
    let rec = record("a", b"b");
    assert_eq!(advance(Phase::Pending, false, false), Phase::Failed);
    assert_eq!(advance(Phase::Reported, false, false), Phase::Failed);
    assert_eq!(advance(Phase::DirEnsured, false, false), Phase::Failed);
    assert_eq!(advance(Phase::Failed, false, true), Phase::Failed);
    assert!(matches!(next_action(Phase::Failed, false, 0, &rec), Action::Abort));
    assert!(matches!(next_action(Phase::Failed, true, 0, &rec), Action::Abort));
}

#[test]
fn two_block_archive_end_to_end() {
    let mut archive: Vec<u8> = path_field("/x.txt");
    assert_eq!(archive.len(), 4 + 12);
    archive.extend_from_slice(&field(b"hi"));
    let second_path = path_field("y/z.bin");
    assert_eq!(second_path.len(), 4 + 14);
    archive.extend_from_slice(&second_path);
    archive.extend_from_slice(&field(b"\x00\x01\x02"));

    let records = parse_file(&archive).unwrap();
    assert_eq!(records.len(), 2);
    assert_eq!(records[0].payload, b"hi".to_vec());
    assert_eq!(records[1].payload, vec![0u8, 1, 2]);

    let (lines0, dirs0, files0, _) = run(0, &records[0], false);
    let (lines1, dirs1, files1, _) = run(1, &records[1], false);
    assert_eq!(lines0, vec!["Block 0: /x.txt size 2".to_string()]);
    assert_eq!(lines1, vec!["Block 1: y/z.bin size 3".to_string()]);
    assert_eq!(dirs0, vec!["x.txt".to_string()]);
    assert_eq!(files0, vec!["x.txt".to_string()]);
    assert_eq!(dirs1, vec!["y/z.bin".to_string()]);
    assert_eq!(files1, vec!["y/z.bin".to_string()]);

    let (dry0, no_dirs, no_files, _) = run(0, &records[0], true);
    assert_eq!(dry0, lines0);
    assert!(no_dirs.is_empty() && no_files.is_empty());
}
