use dotsync::confirm::parse_confirm;
use dotsync::diff::{compute_diff, ChangeKind, InlineRow};
use dotsync::exclude::ExcludeMatcher;
use dotsync::paths::{is_protected, normalize_rel, protected_path, strip_root};
use dotsync::planner::{plan_pull, PullCandidate, RenderKind};
use dotsync::render::{
    ceil_log10, count_lines, dec_string, render_groups, render_marker, render_text_diff,
};

fn all_rows(old_text: &str, new_text: &str) -> Vec<Vec<InlineRow>> {
    compute_diff(old_text, new_text, 2)
        .into_iter()
        .map(|g| g.ops.into_iter().flatten().collect())
        .collect()
}

fn row_text(row: &InlineRow) -> String {
    let mut s = String::new();
    for (_, piece) in &row.spans {
        s.push_str(piece);
    }
    s
}

#[test]
fn identical_texts_have_zero_change_groups() {
    let text = "alpha\nbeta\ngamma\n";
    let report = render_text_diff(text, text, "conf/file.txt");
    assert_eq!(report.group_count, 0);
    assert_eq!(report.lines.len(), 3);
    assert_eq!(compute_diff(text, text, 2).len(), 0);
    let empty = render_text_diff("", "", "conf/file.txt");
    assert_eq!(empty.group_count, 0);
}

#[test]
fn single_line_change_makes_one_group() {
    let rows = all_rows("a\nb\n", "a\nc\n");
    assert_eq!(rows.len(), 1, "one change group");
    let group = &rows[0];
    let deleted: Vec<String> = group
        .iter()
        .filter(|r| r.kind == ChangeKind::Delete)
        .map(row_text)
        .collect();
    let inserted: Vec<String> = group
        .iter()
        .filter(|r| r.kind == ChangeKind::Insert)
        .map(row_text)
        .collect();
    let context: Vec<String> = group
        .iter()
        .filter(|r| r.kind == ChangeKind::Equal)
        .map(row_text)
        .collect();
    assert_eq!(deleted, vec!["b\n".to_string()]);
    assert_eq!(inserted, vec!["c\n".to_string()]);
    assert_eq!(context, vec!["a\n".to_string()]);
}

#[test]
fn change_rows_carry_line_numbers() {
    let rows = all_rows("a\nb\n", "a\nc\n");
    let group = &rows[0];
    let del = group.iter().find(|r| r.kind == ChangeKind::Delete).unwrap();
    assert_eq!(del.old_ln, Some(1));
    assert_eq!(del.new_ln, None);
    let ins = group.iter().find(|r| r.kind == ChangeKind::Insert).unwrap();
    assert_eq!(ins.old_ln, None);
    assert_eq!(ins.new_ln, Some(1));
}

#[test]
fn far_changes_make_separate_groups() {
    let old_text = "x0\na\nb\nc\nd\ne\nf\ng\nh\ny0\n";
    let new_text = "x1\na\nb\nc\nd\ne\nf\ng\nh\ny1\n";
    let report = render_text_diff(old_text, new_text, "f");
    assert_eq!(report.group_count, 2);
    // ten lines a side: gutter width 2 * ceil(log10(10)) + 3 = 5; the
    // light rule closes the header and separates the two groups
    let mid = format!("{}\u{253c}{}\n", "\u{2500}".repeat(5), "\u{2500}".repeat(74));
    let rules = report.lines.iter().filter(|l| **l == mid).count();
    assert_eq!(rules, 2);
}

#[test]
fn context_row_is_rendered_dim_with_both_numbers() {
    let report = render_text_diff("a\nb\n", "a\nc\n", "f");
    // the first preview row is the unchanged context line `a`, line 0
    // on both sides, in the dim treatment
    assert_eq!(
        report.lines[3],
        "\x1b[2m0 0 \x1b[0m\x1b[2m \x1b[0m\u{2502}\x1b[2m \x1b[0m\x1b[2ma\n\x1b[0m"
    );
}

#[test]
fn preview_header_is_framed() {
    let report = render_text_diff("a\nb\n", "a\nc\n", "conf/file.txt");
    // two lines on each side: gutter width 2 * ceil(log10(2)) + 3 = 5
    let top = format!("{}\u{2564}{}\n", "\u{2550}".repeat(5), "\u{2550}".repeat(74));
    let name = format!("{}\u{2502} conf/file.txt\n", " ".repeat(5));
    let mid = format!("{}\u{253c}{}\n", "\u{2500}".repeat(5), "\u{2500}".repeat(74));
    assert_eq!(report.lines[0], top);
    assert_eq!(report.lines[1], name);
    assert_eq!(report.lines[2], mid);
    assert!(report.lines.len() > 3);
}

#[test]
fn deploy_then_pull_reports_no_changes() {
    // deploy copies the repository contents; an immediate pull sees the
    // same bytes on both sides for every candidate
    let repo_files = vec![("a.conf", "one\ntwo\n"), ("sub/b.conf", "three\n")];
    let m = ExcludeMatcher::compile(&vec![], &vec![]).unwrap();
    let cands: Vec<PullCandidate> = repo_files
        .iter()
        .map(|(rel, _)| PullCandidate {
            rel: rel.to_string(),
            dest_exists: true,
            both_text: true,
        })
        .collect();
    let plan = plan_pull(&cands, &m);
    assert_eq!(plan.collision, None);
    assert_eq!(plan.items.len(), repo_files.len());
    for (item, (_, text)) in plan.items.iter().zip(repo_files.iter()) {
        assert_eq!(item.kind, RenderKind::LineDiff);
        let report = render_text_diff(text, text, &item.rel);
        assert_eq!(report.group_count, 0, "no change reported for {}", item.rel);
    }
}

#[test]
fn markers_for_files_without_diff_body() {
    let add = render_marker(RenderKind::Addition, "new.bin");
    assert_eq!(add.len(), 2);
    assert_eq!(
        add[0],
        format!("{}\u{2564}{}\n", "\u{2550}".repeat(4), "\u{2550}".repeat(75))
    );
    assert_eq!(add[1], "  \x1b[32m+\x1b[0m \u{2502} new.bin\n");
    let modified = render_marker(RenderKind::Modified, "blob.bin");
    assert_eq!(modified[1], "  \x1b[36m~\x1b[0m \u{2502} blob.bin\n");
}

#[test]
fn preview_body_is_the_rendered_groups() {
    let old_text = "a\nb\n";
    let new_text = "a\nc\n";
    let report = render_text_diff(old_text, new_text, "f");
    // two lines a side: gutter number width 1, gutter 5, budget 74
    let groups = compute_diff(old_text, new_text, 2);
    let body = render_groups(&groups, 1, 5, 74);
    assert_eq!(&report.lines[3..], &body[..]);
}

#[test]
fn confirmation_answers() {
    assert_eq!(parse_confirm("", true), Some(true));
    assert_eq!(parse_confirm("", false), Some(false));
    assert_eq!(parse_confirm("y", false), Some(true));
    assert_eq!(parse_confirm("YES", false), Some(true));
    assert_eq!(parse_confirm("Yes", false), Some(true));
    assert_eq!(parse_confirm("n", true), Some(false));
    assert_eq!(parse_confirm("NO", true), Some(false));
    assert_eq!(parse_confirm("maybe", true), None);
    assert_eq!(parse_confirm("yess", true), None);
}

#[test]
fn paths_normalize_before_comparison() {
    assert_eq!(normalize_rel("sub\\dir\\file"), "sub/dir/file");
    assert_eq!(normalize_rel("dir/"), "dir");
    assert_eq!(normalize_rel("plain"), "plain");
    assert_eq!(protected_path(), "dotconfig.toml");
    assert!(is_protected("dotconfig.toml"));
    assert!(is_protected("dotconfig.toml/"));
    assert!(!is_protected("sub/dotconfig.toml"));
    assert!(!is_protected("other.toml"));
}

#[test]
fn relative_paths_strip_the_root() {
    assert_eq!(strip_root("repo", "repo/sub/f"), Some("sub/f".to_string()));
    assert_eq!(strip_root("repo", "repo"), Some("".to_string()));
    assert_eq!(strip_root("repo", "other/f"), None);
    assert_eq!(strip_root("repo", "repofoo/f"), None);
    assert_eq!(strip_root("", "a/b"), Some("a/b".to_string()));
}

#[test]
fn formatting_helpers() {
    assert_eq!(dec_string(0), "0");
    assert_eq!(dec_string(7), "7");
    assert_eq!(dec_string(120), "120");
    assert_eq!(ceil_log10(0), 0);
    assert_eq!(ceil_log10(1), 0);
    assert_eq!(ceil_log10(9), 1);
    assert_eq!(ceil_log10(10), 1);
    assert_eq!(ceil_log10(11), 2);
    assert_eq!(ceil_log10(100), 2);
    assert_eq!(count_lines(""), 0);
    assert_eq!(count_lines("a"), 1);
    assert_eq!(count_lines("a\n"), 1);
    assert_eq!(count_lines("a\nb"), 2);
    assert_eq!(count_lines("a\nb\n"), 2);
}
