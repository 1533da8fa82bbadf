use umadev::git_commit::{
    git_environment_override, git_environment_variable, git_identity_value, git_path_value,
    parse_stage_zero_entry, repository_redirect_variables, required_git_text, GitValueError,
    RequiredTextError, StageEntryError,
};
use umadev::win_path::git_index_env_path;

#[test]
fn redirecting_variables_are_found_in_any_case() {
    assert!(git_environment_override("GIT_DIR"));
    assert!(git_environment_override("git_index_file"));
    assert!(git_environment_override("GIT_CONFIG_KEY_0"));
    assert!(git_environment_override("git_config_value_3"));
    assert!(!git_environment_override("GIT_AUTHOR_NAME"));
    assert!(git_environment_variable("Git_Anything"));
    assert!(!git_environment_variable("HOME"));
    let keys: Vec<String> = ["PATH", "GIT_WORK_TREE", "GIT_DIR", "git_dir", "GIT_DIR"]
        .iter()
        .map(|key| key.to_string())
        .collect();
    assert_eq!(
        repository_redirect_variables(&keys),
        ["GIT_DIR", "GIT_WORK_TREE", "git_dir"]
    );
    assert!(repository_redirect_variables(&["HOME".to_string()]).is_empty());
}

#[test]
fn identity_values_are_trimmed_and_checked() {
    assert_eq!(git_identity_value(b"  Ada Lovelace \n").unwrap(), "Ada Lovelace");
    assert_eq!(git_identity_value(b"\n"), Err(GitValueError::Unsafe));
    assert_eq!(git_identity_value(b"Ada <ada>"), Err(GitValueError::Unsafe));
    assert_eq!(git_identity_value(b"a\x07b"), Err(GitValueError::Unsafe));
    assert_eq!(git_identity_value(b"\xff"), Err(GitValueError::NotUtf8));
    assert_eq!(git_identity_value("x".repeat(513).as_bytes()), Err(GitValueError::Unsafe));
    assert_eq!(git_identity_value("x".repeat(512).as_bytes()).unwrap().len(), 512);
}

#[test]
fn path_values_are_trimmed_and_checked() {
    assert_eq!(git_path_value(b"/home/u/.gitignore\n").unwrap(), "/home/u/.gitignore");
    assert_eq!(git_path_value(b"a\tb"), Err(GitValueError::Unsafe));
    assert_eq!(git_path_value("p".repeat(4097).as_bytes()), Err(GitValueError::Unsafe));
    assert_eq!(git_path_value(b""), Err(GitValueError::Unsafe));
}

#[test]
fn stage_zero_entry_is_parsed_strictly() {
    let one = b"100644 3b18e512dba79e4c8300dd08aeb37f8e728b8dad 0\tsrc/main.rs\0";
    assert_eq!(
        parse_stage_zero_entry(one, "src/main.rs"),
        Ok(Some((
            "100644".to_string(),
            "3b18e512dba79e4c8300dd08aeb37f8e728b8dad".to_string()
        )))
    );
    assert_eq!(parse_stage_zero_entry(b"", "a"), Ok(None));
    assert_eq!(parse_stage_zero_entry(b"\0\0", "a"), Ok(None));
    assert_eq!(
        parse_stage_zero_entry(b"100644 aa 1\ta\0100644 bb 2\ta\0", "a"),
        Err(StageEntryError::MultipleStages)
    );
    assert_eq!(
        parse_stage_zero_entry(b"100644 aa 0\t\xff\0", "a"),
        Err(StageEntryError::NotUtf8)
    );
    assert_eq!(
        parse_stage_zero_entry(b"100644 aa 0 a\0", "a"),
        Err(StageEntryError::Malformed)
    );
    assert_eq!(
        parse_stage_zero_entry(b"100644 aa 0\tb\0", "a"),
        Err(StageEntryError::OtherPath)
    );
    assert_eq!(
        parse_stage_zero_entry(b"100644 aa 1\ta\0", "a"),
        Err(StageEntryError::NotStageZero)
    );
    assert_eq!(
        parse_stage_zero_entry(b"100644 aa\ta\0", "a"),
        Err(StageEntryError::NotStageZero)
    );
    // Only the first tab separates the path, which may itself hold a tab.
    assert_eq!(
        parse_stage_zero_entry(b"100755  cc  0\tdir\tname\0", "dir\tname"),
        Ok(Some(("100755".to_string(), "cc".to_string())))
    );
}

#[test]
fn required_git_text_is_trimmed_and_non_empty() {
    assert_eq!(
        required_git_text(b"  4b825dc642cb6eb9a060e54bf8d69288fbee4904\n"),
        Ok("4b825dc642cb6eb9a060e54bf8d69288fbee4904".to_string())
    );
    assert_eq!(required_git_text(b" \n\t"), Err(RequiredTextError::Empty));
    assert_eq!(required_git_text(b""), Err(RequiredTextError::Empty));
    assert_eq!(required_git_text(b"\xfe\n"), Err(RequiredTextError::NotUtf8));
}

#[test]
fn git_index_env_path_converts_only_supported_verbatim_paths() {
    assert_eq!(
        git_index_env_path(r"\\?\C:\项目 with space\.git\index", true).unwrap(),
        r"C:\项目 with space\.git\index"
    );
    assert_eq!(
        git_index_env_path(r"\\?\UNC\server\share\项目\.git\index", true).unwrap(),
        r"\\server\share\项目\.git\index"
    );
    assert_eq!(
        git_index_env_path(r"C:\plain\.git\index", true).unwrap(),
        r"C:\plain\.git\index"
    );
    assert!(git_index_env_path(
        r"\\?\Volume{01234567-89ab-cdef-0123-456789abcdef}\index",
        true
    )
    .is_err());
    assert!(git_index_env_path(r"\\.\C:\device\index", true).is_err());
}

#[test]
fn index_paths_elsewhere_and_edge_forms() {
    assert_eq!(
        git_index_env_path(r"\\?\C:\x", false).unwrap(),
        r"\\?\C:\x"
    );
    assert_eq!(git_index_env_path("/repo/.git/index", false).unwrap(), "/repo/.git/index");
    assert_eq!(git_index_env_path(r"\\?\c:\a\\b\.", true).unwrap(), r"C:\a\b\.");
    assert_eq!(git_index_env_path(r"\\?\C:", true).unwrap(), r"C:\");
    assert_eq!(
        git_index_env_path(r"\\?\UNC\server\share", true).unwrap(),
        r"\\server\share"
    );
    assert_eq!(
        git_index_env_path(r"\\server\share\x", true).unwrap(),
        r"\\server\share\x"
    );
    assert_eq!(
        git_index_env_path(r"\\?\C:\a\/rooted", true).unwrap(),
        "C:/rooted"
    );
    assert_eq!(
        git_index_env_path(r"\\?\C:\a\D:b", true).unwrap(),
        "D:b"
    );
    assert_eq!(
        git_index_env_path(r"\\?\C:\dir/\name", true).unwrap(),
        r"C:\dir/name"
    );
}
