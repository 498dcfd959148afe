use worktrunk::git::parse::{path_from_git_stdout, parse_porcelain_z, parse_untracked_files, DefaultBranchName, WorktreeInfo};

// DefaultBranchName::from_local

#[test]
fn test_from_local_simple() {
    let result = DefaultBranchName::from_local("origin", "main");
    assert!(result.is_ok());
    assert_eq!(result.unwrap().into_string(), "main");
}

#[test]
fn test_from_local_with_remote_prefix() {
    let result = DefaultBranchName::from_local("origin", "origin/main");
    assert!(result.is_ok());
    assert_eq!(result.unwrap().into_string(), "main");
}

#[test]
fn test_from_local_with_whitespace() {
    let result = DefaultBranchName::from_local("origin", "  main  \n");
    assert!(result.is_ok());
    assert_eq!(result.unwrap().into_string(), "main");
}

#[test]
fn test_from_local_empty() {
    let result = DefaultBranchName::from_local("origin", "");
    assert!(result.is_err());
}

#[test]
fn test_from_local_only_whitespace() {
    let result = DefaultBranchName::from_local("origin", "   \n  ");
    assert!(result.is_err());
}

#[test]
fn test_from_local_different_remote() {
    let result = DefaultBranchName::from_local("upstream", "upstream/develop");
    assert!(result.is_ok());
    assert_eq!(result.unwrap().into_string(), "develop");
}

#[test]
fn from_local_keeps_other_remote_prefix() {
    let result = DefaultBranchName::from_local("origin", "upstream/develop");
    assert_eq!(result.unwrap().into_string(), "upstream/develop");
}

#[test]
fn from_local_only_prefix_is_error() {
    assert!(DefaultBranchName::from_local("origin", "origin/").is_err());
}

// DefaultBranchName::from_remote

#[test]
fn test_from_remote_standard() {
    let output = "ref: refs/heads/main\tHEAD\n";
    let result = DefaultBranchName::from_remote(output);
    assert!(result.is_ok());
    assert_eq!(result.unwrap().into_string(), "main");
}

#[test]
fn test_from_remote_master() {
    let output = "ref: refs/heads/master\tHEAD\n";
    let result = DefaultBranchName::from_remote(output);
    assert!(result.is_ok());
    assert_eq!(result.unwrap().into_string(), "master");
}

#[test]
fn test_from_remote_with_other_lines() {
    let output = "abc123\tHEAD\nref: refs/heads/develop\tHEAD\ndef456\trefs/heads/main\n";
    let result = DefaultBranchName::from_remote(output);
    assert!(result.is_ok());
    assert_eq!(result.unwrap().into_string(), "develop");
}

#[test]
fn test_from_remote_no_ref() {
    let output = "abc123\tHEAD\n";
    let result = DefaultBranchName::from_remote(output);
    assert!(result.is_err());
}

#[test]
fn test_from_remote_empty() {
    let result = DefaultBranchName::from_remote("");
    assert!(result.is_err());
}

#[test]
fn from_remote_symref_without_tab_is_skipped() {
    let output = "ref: refs/heads/first\nref: refs/heads/second\tHEAD\n";
    let result = DefaultBranchName::from_remote(output);
    assert_eq!(result.unwrap().into_string(), "second");
}

// WorktreeInfo::parse_porcelain_list_z

#[test]
fn test_parse_porcelain_list_single_worktree() {
    let output = b"worktree /path/to/repo\0HEAD abc123\0branch refs/heads/main\0\0";
    let worktrees = WorktreeInfo::parse_porcelain_list_z(output).unwrap();
    assert_eq!(worktrees.len(), 1);
    let wt = &worktrees[0];
    assert_eq!(wt.path, b"/path/to/repo".to_vec());
    assert_eq!(wt.head, "abc123");
    assert_eq!(wt.branch, Some("main".to_string()));
}

#[test]
fn test_parse_porcelain_list_multiple_worktrees() {
    let output = b"worktree /path/main\0HEAD aaa\0branch refs/heads/main\0\0worktree /path/feature\0HEAD bbb\0branch refs/heads/feature\0\0";
    let worktrees = WorktreeInfo::parse_porcelain_list_z(output).unwrap();
    assert_eq!(worktrees.len(), 2);
    assert_eq!(worktrees[0].branch, Some("main".to_string()));
    assert_eq!(worktrees[1].branch, Some("feature".to_string()));
}

#[test]
fn test_parse_porcelain_list_bare_repo() {
    let output = b"worktree /path/to/repo.git\0HEAD abc123\0bare\0\0";
    let worktrees = WorktreeInfo::parse_porcelain_list_z(output).unwrap();
    assert_eq!(worktrees.len(), 1);
    assert!(worktrees[0].bare);
}

#[test]
fn test_parse_porcelain_list_detached() {
    let output = b"worktree /path/to/repo\0HEAD abc123\0detached\0\0";
    let worktrees = WorktreeInfo::parse_porcelain_list_z(output).unwrap();
    assert_eq!(worktrees.len(), 1);
    assert!(worktrees[0].detached);
    assert!(worktrees[0].branch.is_none());
}

#[test]
fn test_parse_porcelain_list_locked() {
    let output = b"worktree /path/to/repo\0HEAD abc123\0branch refs/heads/main\0locked reason for lock\0\0";
    let worktrees = WorktreeInfo::parse_porcelain_list_z(output).unwrap();
    assert_eq!(worktrees.len(), 1);
    assert_eq!(worktrees[0].locked, Some("reason for lock".to_string()));
}

#[test]
fn test_parse_porcelain_list_prunable() {
    let output = b"worktree /path/to/repo\0HEAD abc123\0branch refs/heads/main\0prunable gitdir file missing\0\0";
    let worktrees = WorktreeInfo::parse_porcelain_list_z(output).unwrap();
    assert_eq!(worktrees.len(), 1);
    assert_eq!(worktrees[0].prunable, Some("gitdir file missing".to_string()));
}

#[test]
fn test_parse_porcelain_list_empty() {
    let result = WorktreeInfo::parse_porcelain_list_z(b"");
    assert!(result.is_ok());
    let worktrees = result.unwrap();
    assert!(worktrees.is_empty());
}

#[test]
fn test_parse_porcelain_list_no_trailing_blank() {
    let output = b"worktree /path/to/repo\0HEAD abc123\0branch refs/heads/main";
    let result = WorktreeInfo::parse_porcelain_list_z(output);
    assert!(result.is_ok());
    let worktrees = result.unwrap();
    assert_eq!(worktrees.len(), 1);
}

#[test]
fn test_parse_porcelain_list_missing_worktree_path() {
    let output = b"worktree\0HEAD abc123\0\0";
    let result = WorktreeInfo::parse_porcelain_list_z(output);
    assert!(result.is_err());
}

#[test]
fn test_parse_porcelain_list_missing_head_sha() {
    let output = b"worktree /path\0HEAD\0\0";
    let result = WorktreeInfo::parse_porcelain_list_z(output);
    assert!(result.is_err());
}

#[test]
fn test_parse_porcelain_list_branch_without_refs_prefix() {
    let output = b"worktree /path/to/repo\0HEAD abc123\0branch main\0\0";
    let worktrees = WorktreeInfo::parse_porcelain_list_z(output).unwrap();
    assert_eq!(worktrees.len(), 1);
    assert_eq!(worktrees[0].branch, Some("main".to_string()));
}

#[test]
fn test_parse_porcelain_list_z_preserves_non_utf8_path() {
    let output = b"worktree /path/to/linked-\xff\0HEAD abc123\0branch refs/heads/feature\0\0";
    let worktrees = WorktreeInfo::parse_porcelain_list_z(output).unwrap();
    assert_eq!(worktrees.len(), 1);
    assert_eq!(worktrees[0].path, b"/path/to/linked-\xff".to_vec());
    assert_eq!(worktrees[0].branch.as_deref(), Some("feature"));
}

#[test]
fn parse_porcelain_list_text_form() {
    let output = "worktree /a\nHEAD 111\nbranch refs/heads/x\n\nworktree /b\nHEAD 222\ndetached\n";
    let worktrees = WorktreeInfo::parse_porcelain_list(output).unwrap();
    assert_eq!(worktrees.len(), 2);
    assert_eq!(worktrees[0].path, b"/a".to_vec());
    assert_eq!(worktrees[0].branch, Some("x".to_string()));
    assert!(worktrees[1].detached);
}

#[test]
fn parse_porcelain_list_attributes_before_worktree_are_ignored() {
    let output = b"HEAD zzz\0bare\0worktree /p\0HEAD abc\0\0";
    let worktrees = WorktreeInfo::parse_porcelain_list_z(output).unwrap();
    assert_eq!(worktrees.len(), 1);
    assert_eq!(worktrees[0].head, "abc");
    assert!(!worktrees[0].bare);
}

#[test]
fn parse_porcelain_list_missing_branch_ref_is_error() {
    let output = b"worktree /p\0branch\0\0";
    assert!(WorktreeInfo::parse_porcelain_list_z(output).is_err());
}

// parse_porcelain_z

#[test]
fn test_parse_porcelain_z_empty() {
    assert!(parse_porcelain_z(b"").is_empty());
}

#[test]
fn test_parse_porcelain_z_modified_file() {
    let output = " M src/main.rs\0";
    let files = parse_porcelain_z(output.as_bytes());
    assert_eq!(files, vec![b"src/main.rs".to_vec()]);
}

#[test]
fn test_parse_porcelain_z_multiple_files() {
    let output = " M src/main.rs\0?? new_file.txt\0";
    let files = parse_porcelain_z(output.as_bytes());
    assert_eq!(files, vec![b"src/main.rs".to_vec(), b"new_file.txt".to_vec()]);
}

#[test]
fn test_parse_porcelain_z_rename() {
    let output = "R  new_name.rs\0old_name.rs\0";
    let files = parse_porcelain_z(output.as_bytes());
    assert_eq!(files, vec![b"new_name.rs".to_vec(), b"old_name.rs".to_vec()]);
}

#[test]
fn test_parse_porcelain_z_copy() {
    let output = "C  copy.rs\0original.rs\0";
    let files = parse_porcelain_z(output.as_bytes());
    assert_eq!(files, vec![b"copy.rs".to_vec(), b"original.rs".to_vec()]);
}

#[test]
fn test_parse_porcelain_z_rename_among_others() {
    let output = " M keep.rs\0R  new.rs\0old.rs\0?? untracked.txt\0";
    let files = parse_porcelain_z(output.as_bytes());
    assert_eq!(
        files,
        vec![
            b"keep.rs".to_vec(),
            b"new.rs".to_vec(),
            b"old.rs".to_vec(),
            b"untracked.txt".to_vec()
        ]
    );
}

#[test]
fn test_parse_porcelain_z_worktree_rename() {
    let output = " R new.rs\0old.rs\0?? untracked.txt\0";
    let files = parse_porcelain_z(output.as_bytes());
    assert_eq!(
        files,
        vec![b"new.rs".to_vec(), b"old.rs".to_vec(), b"untracked.txt".to_vec()]
    );
}

#[test]
fn test_parse_porcelain_z_spaces_in_path() {
    let output = " M path with spaces/file name.rs\0";
    let files = parse_porcelain_z(output.as_bytes());
    assert_eq!(files, vec![b"path with spaces/file name.rs".to_vec()]);
}

#[test]
fn test_parse_porcelain_z_skips_short_entries() {
    let output = " M valid.rs\0ab\0";
    let files = parse_porcelain_z(output.as_bytes());
    assert_eq!(files, vec![b"valid.rs".to_vec()]);
}

#[test]
fn test_parse_porcelain_z_preserves_distinct_non_utf8_paths() {
    let output = b" D collision-\xfe\0 D collision-\xff\0";
    let files = parse_porcelain_z(output);
    assert_eq!(files, vec![b"collision-\xfe".to_vec(), b"collision-\xff".to_vec()]);
}

#[test]
fn parse_porcelain_z_rename_at_end_without_source() {
    let files = parse_porcelain_z(b"R  lonely.rs\0");
    assert_eq!(files, vec![b"lonely.rs".to_vec()]);
}

// parse_untracked_files

#[test]
fn test_parse_untracked_files_empty() {
    assert!(parse_untracked_files("").is_empty());
}

#[test]
fn test_parse_untracked_files_only_untracked() {
    let output = "?? new_file.txt\0?? another.rs\0";
    let files = parse_untracked_files(output);
    assert_eq!(files, vec!["new_file.txt", "another.rs"]);
}

#[test]
fn test_parse_untracked_files_filters_tracked() {
    let output = " M modified.rs\0?? untracked.txt\0A  added.rs\0";
    let files = parse_untracked_files(output);
    assert_eq!(files, vec!["untracked.txt"]);
}

#[test]
fn test_parse_untracked_files_skips_rename_old_path() {
    let output = "R  new.rs\0old.rs\0?? untracked.txt\0";
    let files = parse_untracked_files(output);
    assert_eq!(files, vec!["untracked.txt"]);
}

#[test]
fn test_parse_untracked_files_skips_worktree_rename_old_path() {
    let output = " R new.rs\0R  old.rs\0?? untracked.txt\0";
    let files = parse_untracked_files(output);
    assert_eq!(files, vec!["untracked.txt"]);
}

#[test]
fn test_parse_untracked_files_no_untracked() {
    let output = " M modified.rs\0A  added.rs\0";
    let files = parse_untracked_files(output);
    assert!(files.is_empty());
}

#[test]
fn test_parse_untracked_files_spaces_in_path() {
    let output = "?? path with spaces/new file.txt\0";
    let files = parse_untracked_files(output);
    assert_eq!(files, vec!["path with spaces/new file.txt"]);
}

#[test]
fn path_from_git_stdout_strips_one_newline() {
    assert_eq!(path_from_git_stdout(b"/repo\n"), b"/repo".to_vec());
    assert_eq!(path_from_git_stdout(b"/repo\n\n"), b"/repo\n".to_vec());
    assert_eq!(path_from_git_stdout(b"/repo"), b"/repo".to_vec());
}
