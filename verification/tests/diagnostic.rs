use worktrunk::diagnostic::{git_version_text, strip_ansi_codes, truncate_log, DiagnosticReport, LOG_LIMIT};

fn report() -> DiagnosticReport {
    DiagnosticReport { content: "## Diagnostic Report\n".to_string() }
}

#[test]
fn hint_without_verbose_asks_for_it() {
    assert_eq!(
        report().issue_hint(false, None, true),
        "To create a diagnostic file, re-run with \x1b[90m--verbose\x1b[39m"
    );
}

#[test]
fn hint_reports_a_failed_write() {
    assert_eq!(report().issue_hint(true, None, true), "Failed to write diagnostic file");
}

#[test]
fn hint_names_the_file_and_the_gh_command() {
    let hint = report().issue_hint(true, Some(("~/repo/.git/wt-logs/diagnostic.md", "/home/u/it's/diagnostic.md")), true);
    assert_eq!(
        hint,
        "Diagnostic saved: ~/repo/.git/wt-logs/diagnostic.md\n   \x1b[90mgh issue create -R max-sixty/worktrunk -t 'Bug report' --body-file '/home/u/it'\\''s/diagnostic.md'\x1b[39m"
    );
    let plain = report().issue_hint(true, Some(("d.md", "/d.md")), false);
    assert_eq!(plain, "Diagnostic saved: d.md");
}

#[test]
fn git_version_text_strips_the_prefix() {
    assert_eq!(git_version_text("git version 2.44.0\n"), "2.44.0");
    assert_eq!(git_version_text("  weird output "), "weird output");
}

#[test]
fn short_log_is_kept_whole() {
    assert_eq!(truncate_log("line one\nline two"), "line one\nline two");
    let exact = "x".repeat(LOG_LIMIT);
    assert_eq!(truncate_log(&exact), exact);
}

#[test]
fn long_log_keeps_its_last_lines() {
    // The cut falls inside the first line, so that line is dropped whole.
    let content = format!("{}\n{}\nlast", "a".repeat(100), "b".repeat(LOG_LIMIT - 10));
    let expected = format!("(log truncated to last ~50KB)\n{}\nlast", "b".repeat(LOG_LIMIT - 10));
    assert_eq!(truncate_log(&content), expected);
}

#[test]
fn long_log_without_a_newline_after_the_cut_keeps_the_bytes() {
    let content = format!("{}\n{}", "a".repeat(100), "b".repeat(LOG_LIMIT));
    let expected = format!("(log truncated to last ~50KB)\n{}", "b".repeat(LOG_LIMIT));
    assert_eq!(truncate_log(&content), expected);
}

#[test]
fn colour_codes_are_stripped() {
    assert_eq!(strip_ansi_codes("\x1b[1;31merror\x1b[0m: failed").as_deref(), Some("error: failed"));
    assert_eq!(strip_ansi_codes("plain").as_deref(), Some("plain"));
    assert_eq!(strip_ansi_codes("\x1b[90mdim\x1b[39m and \x1b[mreset").as_deref(), Some("dim and reset"));
}

#[test]
fn report_fills_in_the_template() {
    let report = DiagnosticReport::format_report(
        "\x1b[31mgit worktree list timed out\x1b[0m",
        "2025-01-02T03:04:05Z",
        "0.9.0",
        "linux",
        "x86_64",
        Some("2.45.0"),
        true,
        Some("worktree /repo\nHEAD abc\nbranch refs/heads/main\n\n"),
        None,
    )
    .unwrap();
    let expected = "## Diagnostic Report\n\n**Generated:** 2025-01-02T03:04:05Z\n**Context:** git worktree list timed out\n\n### What's included\n\n- wt version, OS, git version\n- Worktree paths and branch names\n- Worktree status (prunable, locked, etc.)\n- Shell integration status\n- Verbose logs (if run with --verbose)\n- Commit messages (in verbose logs)\n\nDoes NOT contain: file contents, credentials.\n\n<details>\n<summary>Diagnostic data</summary>\n\n```\nwt 0.9.0 (linux x86_64)\ngit 2.45.0\nShell integration: active\n\n--- git worktree list --porcelain ---\nworktree /repo\nHEAD abc\nbranch refs/heads/main\n```\n</details>\n";
    assert_eq!(report, expected);
}

#[test]
fn report_falls_back_and_includes_the_log() {
    let report = DiagnosticReport::format_report(
        "ctx",
        "t",
        "v",
        "macos",
        "aarch64",
        None,
        false,
        None,
        Some("  debug: one\ndebug: two\n\n"),
    )
    .unwrap();
    assert!(report.contains("git (unknown)\n"), "{report}");
    assert!(report.contains("Shell integration: inactive\n"), "{report}");
    assert!(report.contains("--- git worktree list --porcelain ---\n(failed to get worktree list)\n"), "{report}");
    assert!(
        report.ends_with("<details>\n<summary>Verbose log</summary>\n\n```\ndebug: one\ndebug: two\n```\n</details>\n"),
        "{report}"
    );
}

#[test]
fn report_leaves_out_an_empty_log() {
    let report = DiagnosticReport::format_report("c", "t", "v", "o", "a", None, false, None, Some("  \n ")).unwrap();
    assert!(!report.contains("<summary>Verbose log</summary>"), "{report}");
}
