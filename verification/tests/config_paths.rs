use envio::config::{
    build_profile_path, config_dir_for, contains_path_separator, get_config_dir, get_profile_dir,
    get_profile_path, get_shellscript_path, profile_dir_for, BaseDirs, ConfigScope,
};
use envio::error::AppError;
use envio::text::join_path;

fn dirs() -> BaseDirs {
    BaseDirs { cwd: "/work/project".to_string(), home: "/home/ada".to_string() }
}

fn dirs_path() -> std::path::PathBuf {
    std::path::Path::new("/home/ada").join(".envio").join("profiles")
}

fn nothing(_: &str) -> bool {
    false
}

fn everything(_: &str) -> bool {
    true
}

#[test]
fn join_path_puts_one_separator_between() {
    assert_eq!(join_path("/a", "b"), "/a/b");
    assert_eq!(join_path("/a/", "b"), "/a/b");
    assert_eq!(join_path("", "b"), "b");
    assert_eq!(join_path("/", "b"), "/b");
    assert_eq!(join_path("a", ""), "a/");
}

#[test]
fn join_path_lets_an_absolute_name_stand_alone() {
    assert_eq!(join_path("/a", "/b"), "/b");
    assert_eq!(join_path("/a/", "/"), "/");
    assert_eq!(join_path("", "/b/c"), "/b/c");
    assert_eq!(join_path("/a", "//b"), "//b");
}

#[test]
fn join_path_agrees_with_std_join() {
    let parts = ["", "/", "a", "/a", "a/", "/a/", "a/b", "/a/b/", "//", ".", "..", "ä/ö", "a b"];
    for base in parts {
        for name in parts {
            let expected = std::path::Path::new(base).join(name);
            assert_eq!(
                join_path(base, name).as_str(),
                expected.to_str().unwrap(),
                "base {:?}, name {:?}",
                base,
                name
            );
        }
    }
}

#[test]
fn profile_name_that_is_absolute_replaces_the_directory() {
    let expected = dirs_path().join(format!("{}.env", "/x"));
    assert_eq!(expected, std::path::PathBuf::from("/x.env"));
    assert_eq!(build_profile_path("/x", Some(ConfigScope::Global), &dirs(), &nothing), "/x.env");
    assert_eq!(build_profile_path("/x", Some(ConfigScope::Local), &dirs(), &nothing), "/x.env");
    assert_eq!(build_profile_path("/x", None, &dirs(), &everything), "/x.env");
    assert_eq!(build_profile_path("/x", None, &dirs(), &nothing), "/x.env");
    let present = |path: &str| path == "/x.env";
    assert_eq!(get_profile_path("/x", None, &dirs(), &present), Ok("/x.env".to_string()));
    assert_eq!(
        get_profile_path("/x", Some(ConfigScope::Local), &dirs(), &nothing),
        Err(AppError::ProfileDoesNotExist("/x".to_string()))
    );
}

#[test]
fn profile_paths_agree_with_std_join() {
    for name in ["dev", "", "a/b", "/abs", "ünï", ".hidden", "x.env"] {
        let scopes = [(ConfigScope::Local, "/work/project"), (ConfigScope::Global, "/home/ada")];
        for (scope, base) in scopes {
            let expected = std::path::Path::new(base)
                .join(".envio")
                .join("profiles")
                .join(format!("{}.env", name));
            assert_eq!(
                build_profile_path(name, Some(scope), &dirs(), &nothing).as_str(),
                expected.to_str().unwrap()
            );
        }
    }
}

#[test]
fn config_dir_for_each_scope() {
    assert_eq!(config_dir_for(ConfigScope::Local, &dirs()), "/work/project/.envio");
    assert_eq!(config_dir_for(ConfigScope::Global, &dirs()), "/home/ada/.envio");
}

#[test]
fn profile_dir_for_each_scope() {
    assert_eq!(profile_dir_for(ConfigScope::Local, &dirs()), "/work/project/.envio/profiles");
    assert_eq!(profile_dir_for(ConfigScope::Global, &dirs()), "/home/ada/.envio/profiles");
}

#[test]
fn get_config_dir_prefers_an_existing_local_directory() {
    assert_eq!(get_config_dir(&dirs(), &everything), "/work/project/.envio");
    assert_eq!(get_config_dir(&dirs(), &nothing), "/home/ada/.envio");
    let only_local = |path: &str| path == "/work/project/.envio";
    assert_eq!(get_config_dir(&dirs(), &only_local), "/work/project/.envio");
    let only_global = |path: &str| path == "/home/ada/.envio";
    assert_eq!(get_config_dir(&dirs(), &only_global), "/home/ada/.envio");
}

#[test]
fn get_profile_dir_asks_about_the_local_profile_directory() {
    let config_only = |path: &str| path == "/work/project/.envio";
    assert_eq!(get_profile_dir(&dirs(), &config_only), "/home/ada/.envio/profiles");
    let profiles = |path: &str| path == "/work/project/.envio/profiles";
    assert_eq!(get_profile_dir(&dirs(), &profiles), "/work/project/.envio/profiles");
}

#[test]
fn get_shellscript_path_is_in_the_config_dir_in_use() {
    assert_eq!(get_shellscript_path(&dirs(), &everything), "/work/project/.envio/setenv.sh");
    assert_eq!(get_shellscript_path(&dirs(), &nothing), "/home/ada/.envio/setenv.sh");
}

#[test]
fn contains_path_separator_knows_both_separators() {
    assert!(contains_path_separator("a/b"));
    assert!(contains_path_separator("a\\b"));
    assert!(contains_path_separator("/"));
    assert!(!contains_path_separator("profile"));
    assert!(!contains_path_separator(""));
    assert!(!contains_path_separator("a.b:c"));
}

#[test]
fn build_profile_path_with_a_scope_asks_nothing() {
    let never = |_: &str| -> bool { panic!("must not be asked") };
    assert_eq!(
        build_profile_path("dev", Some(ConfigScope::Global), &dirs(), &never),
        "/home/ada/.envio/profiles/dev.env"
    );
    assert_eq!(
        build_profile_path("dev", Some(ConfigScope::Local), &dirs(), &never),
        "/work/project/.envio/profiles/dev.env"
    );
}

#[test]
fn build_profile_path_without_scope_uses_the_directory_in_use() {
    assert_eq!(
        build_profile_path("dev", None, &dirs(), &everything),
        "/work/project/.envio/profiles/dev.env"
    );
    assert_eq!(
        build_profile_path("dev", None, &dirs(), &nothing),
        "/home/ada/.envio/profiles/dev.env"
    );
}

#[test]
fn get_profile_path_wants_the_file_to_exist() {
    let present = |path: &str| path == "/home/ada/.envio/profiles/dev.env";
    assert_eq!(
        get_profile_path("dev", None, &dirs(), &present),
        Ok("/home/ada/.envio/profiles/dev.env".to_string())
    );
    assert_eq!(
        get_profile_path("dev", Some(ConfigScope::Global), &dirs(), &present),
        Ok("/home/ada/.envio/profiles/dev.env".to_string())
    );
    assert_eq!(
        get_profile_path("dev", Some(ConfigScope::Local), &dirs(), &present),
        Err(AppError::ProfileDoesNotExist("dev".to_string()))
    );
    assert_eq!(
        get_profile_path("prod", None, &dirs(), &present),
        Err(AppError::ProfileDoesNotExist("prod".to_string()))
    );
}
