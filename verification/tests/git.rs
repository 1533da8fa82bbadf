use umadev::git::{filter_driver_overrides, ConfigListing, FilterConfigError};

#[test]
fn scoped_listing_blanks_only_repository_defined_drivers() {
    let listing = b"global\0filter.lfs.clean\ngit-lfs clean -- %f\0\
        global\0filter.Shared.clean\nuser\0\
        local\0filter.Shared.smudge\nrepo\0\
        local\0filter.Evil.process\nrepo\0\
        local\0core.bare\nfalse\0";
    let overrides = filter_driver_overrides(listing, ConfigListing::Scoped).unwrap();
    assert!(overrides.contains(&"filter.Evil.process=".to_string()));
    assert!(overrides.contains(&"filter.Shared.clean=".to_string()));
    assert!(!overrides
        .iter()
        .any(|value| value.starts_with("filter.lfs.")));
    assert_eq!(overrides.len(), 8);

    let unscoped = b"filter.lfs.clean\ngit-lfs\0core.bare\nfalse\0";
    assert_eq!(
        filter_driver_overrides(unscoped, ConfigListing::Unscoped).unwrap(),
        [
            "filter.lfs.clean=",
            "filter.lfs.smudge=",
            "filter.lfs.process=",
            "filter.lfs.required=false"
        ]
    );
}

#[test]
fn unrepresentable_driver_names_fail_closed() {
    assert_eq!(
        filter_driver_overrides(b"filter.a=b.clean\nx\0", ConfigListing::Unscoped),
        Err(FilterConfigError::InvalidDriverName)
    );
    assert_eq!(
        filter_driver_overrides(b"local\0filter.\xff.clean\nx\0", ConfigListing::Scoped),
        Err(FilterConfigError::NonUtf8Key)
    );
}

#[test]
fn drivers_come_out_once_each_in_code_point_order() {
    let listing = b"filter.b.clean\nx\0filter.a.smudge\ny\0filter.b.process\nz\0FILTER.B.CLEAN\nq\0";
    assert_eq!(
        filter_driver_overrides(listing, ConfigListing::Unscoped).unwrap(),
        [
            "filter.B.clean=",
            "filter.B.smudge=",
            "filter.B.process=",
            "filter.B.required=false",
            "filter.a.clean=",
            "filter.a.smudge=",
            "filter.a.process=",
            "filter.a.required=false",
            "filter.b.clean=",
            "filter.b.smudge=",
            "filter.b.process=",
            "filter.b.required=false",
        ]
    );
}

#[test]
fn empty_and_control_driver_names_are_refused() {
    assert_eq!(
        filter_driver_overrides(b"filter..clean\nx\0", ConfigListing::Unscoped),
        Err(FilterConfigError::InvalidDriverName)
    );
    assert_eq!(
        filter_driver_overrides(b"filter.a\tb.clean\nx\0", ConfigListing::Unscoped),
        Err(FilterConfigError::InvalidDriverName)
    );
    let long = format!("filter.{}.clean\nx\0", "d".repeat(257));
    assert_eq!(
        filter_driver_overrides(long.as_bytes(), ConfigListing::Unscoped),
        Err(FilterConfigError::InvalidDriverName)
    );
    assert_eq!(
        filter_driver_overrides(b"", ConfigListing::Unscoped).unwrap(),
        Vec::<String>::new()
    );
}

#[test]
fn too_many_drivers_fail_closed() {
    let mut listing = Vec::new();
    for i in 0..257 {
        listing.extend_from_slice(format!("filter.d{i}.clean\nx\0").as_bytes());
    }
    assert_eq!(
        filter_driver_overrides(&listing, ConfigListing::Unscoped),
        Err(FilterConfigError::TooManyDrivers)
    );
    assert_eq!(
        FilterConfigError::TooManyDrivers.message(),
        "too many Git filter drivers"
    );
}

use umadev::git::{listing_overrides, repository_defines_filters, ListingError, ListingRun};

fn run(success: bool, stdout: &[u8]) -> ListingRun {
    ListingRun {
        success,
        timed_out: false,
        stdout_truncated: false,
        stdout: stdout.to_vec(),
    }
}

#[test]
fn scoped_listing_decides_unless_git_cannot_produce_it() {
    let scoped = run(true, b"global\0filter.lfs.clean\nx\0");
    assert_eq!(repository_defines_filters(&scoped, None), Some(Ok(false)));
    let scoped = run(true, b"local\0filter.crypt.smudge\nx\0");
    assert_eq!(repository_defines_filters(&scoped, None), Some(Ok(true)));

    let old_git = run(false, b"");
    assert_eq!(repository_defines_filters(&old_git, None), None);
    let unscoped = run(true, b"filter.lfs.clean\nx\0");
    assert_eq!(repository_defines_filters(&old_git, Some(&unscoped)), Some(Ok(true)));
    assert_eq!(
        repository_defines_filters(&old_git, Some(&run(false, b""))),
        Some(Err(ListingError::Failed))
    );
}

#[test]
fn overrun_listings_are_never_trusted() {
    let mut overrun = run(true, b"");
    overrun.stdout_truncated = true;
    assert_eq!(listing_overrides(&overrun, umadev::git::ConfigListing::Unscoped), Some(Err(ListingError::Envelope)));
    let mut late = run(false, b"");
    late.timed_out = true;
    assert_eq!(repository_defines_filters(&late, None), Some(Err(ListingError::Envelope)));
}

use umadev::git::{
    config_listing_args, hardened_git_args, hardened_git_env, removes_git_environment_key, GitAccess,
};

#[test]
fn git_children_are_noninteractive_and_ignore_environment_redirects() {
    let args = hardened_git_args(GitAccess::ReadOnly, &[], false);
    assert!(args.contains(&"--no-optional-locks".to_string()));
    assert!(args.contains(&"core.hooksPath=/dev/null".to_string()));
    assert_eq!(args[0], "--no-pager");
    let env = hardened_git_env();
    assert!(env.contains(&("GIT_TERMINAL_PROMPT", "0")));
    assert!(env.contains(&("GCM_INTERACTIVE", "Never")));
    assert!(env.contains(&("GIT_PAGER", "cat")));
    assert!(env.contains(&("GIT_CONFIG_NOSYSTEM", "1")));
}

#[test]
fn mutating_children_keep_optional_locks_and_get_each_override() {
    let overrides = vec!["filter.x.clean=".to_string(), "filter.x.smudge=".to_string()];
    let args = hardened_git_args(GitAccess::Mutating, &overrides, true);
    assert!(!args.contains(&"--no-optional-locks".to_string()));
    assert!(args.contains(&"core.hooksPath=NUL".to_string()));
    assert!(args.contains(&"core.attributesFile=NUL".to_string()));
    assert_eq!(&args[args.len() - 4..], ["-c", "filter.x.clean=", "-c", "filter.x.smudge="]);
    assert_eq!(
        config_listing_args(umadev::git::ConfigListing::Scoped),
        ["config", "--null", "--list", "--includes", "--show-scope"]
    );
    assert_eq!(
        config_listing_args(umadev::git::ConfigListing::Unscoped),
        ["config", "--null", "--list", "--includes"]
    );
}

#[test]
fn git_environment_is_removed_by_prefix_and_name() {
    assert!(removes_git_environment_key("GIT_DIR"));
    assert!(removes_git_environment_key("git_future_variable"));
    assert!(removes_git_environment_key("Email"));
    assert!(removes_git_environment_key("SSH_ASKPASS"));
    assert!(!removes_git_environment_key("PATH"));
    assert!(!removes_git_environment_key("GITHUB_TOKEN"));
}
