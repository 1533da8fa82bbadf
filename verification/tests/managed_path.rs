use umadev::managed_path::{
    relative_parts, sibling_name, validate_child_name, ManagedPathError, PathComponent,
};

fn normal(name: &str) -> PathComponent {
    PathComponent::Normal(name.to_string())
}

#[test]
fn managed_paths_never_escape_their_root() {
    assert_eq!(
        relative_parts(&[normal(".umadev"), PathComponent::CurDir, normal("memory")]).unwrap(),
        [".umadev", "memory"]
    );
    for escaping in [PathComponent::ParentDir, PathComponent::RootDir, PathComponent::Prefix] {
        assert_eq!(
            relative_parts(&[normal("a"), escaping]),
            Err(ManagedPathError::Escaping)
        );
    }
    assert_eq!(relative_parts(&[PathComponent::CurDir]), Err(ManagedPathError::Empty));
    assert_eq!(relative_parts(&[]), Err(ManagedPathError::Empty));
}

#[test]
fn sibling_names_are_hidden_and_checked() {
    assert_eq!(
        sibling_name("policy.toml", &[normal("policy.toml")], "tmp").unwrap(),
        ".policy.toml.tmp"
    );
    assert_eq!(
        sibling_name("a/b", &[normal("a"), normal("b")], "tmp"),
        Err(ManagedPathError::UnsafeName)
    );
    assert_eq!(
        sibling_name("x", &[normal("x")], "a/b"),
        Err(ManagedPathError::BadSuffix)
    );
    assert_eq!(sibling_name("x", &[normal("x")], ""), Err(ManagedPathError::BadSuffix));
    assert_eq!(validate_child_name(&[PathComponent::ParentDir]), Err(ManagedPathError::UnsafeName));
    assert_eq!(validate_child_name(&[normal("ok")]), Ok(()));
}

#[test]
fn sibling_name_checks_the_name_it_builds_from() {
    // The components say one plain name, but the name itself carries a separator.
    assert_eq!(sibling_name("a/", &[normal("a")], "tmp"), Err(ManagedPathError::UnsafeName));
    assert_eq!(sibling_name("a\\b", &[normal("a\\b")], "tmp"), Err(ManagedPathError::UnsafeName));
    assert_eq!(sibling_name("..", &[normal("..")], "tmp"), Err(ManagedPathError::UnsafeName));
    assert_eq!(sibling_name(".", &[normal(".")], "tmp"), Err(ManagedPathError::UnsafeName));
    assert_eq!(sibling_name("", &[normal("")], "tmp"), Err(ManagedPathError::UnsafeName));
    assert_eq!(sibling_name(".env", &[normal(".env")], "tmp").unwrap(), "..env.tmp");
}
