use pgx_schema::version::{fullpath, is_cargo_toml_file, is_not_excluded_dir, parse_new_version, try_parse_new_version};

#[test]
fn operator_prefix_is_kept() {
    assert_eq!(parse_new_version("=0.5.0-beta.1", "0.5.0"), "=0.5.0");
    assert_eq!(parse_new_version("^1.2", "2.0.0"), "^2.0.0");
}

#[test]
fn bare_version_is_left_alone() {
    assert_eq!(parse_new_version("0.4.5", "0.5.0"), "0.4.5");
}

#[test]
fn requirement_without_digits_is_refused() {
    assert_eq!(try_parse_new_version("", "1.0"), None);
    assert_eq!(try_parse_new_version("*", "1.0"), None);
    assert_eq!(try_parse_new_version("~0.1", "0.2"), Some("~0.2".to_string()));
}

#[test]
fn manifest_search_skips_ignored_directories() {
    assert!(!is_not_excluded_dir(".git", true));
    assert!(!is_not_excluded_dir("target", true));
    assert!(is_not_excluded_dir("target", false));
    assert!(is_not_excluded_dir("src", true));
}

#[test]
fn only_manifest_files_are_picked() {
    assert!(is_cargo_toml_file("Cargo.toml", true));
    assert!(!is_cargo_toml_file("Cargo.toml", false));
    assert!(!is_cargo_toml_file("cargo.toml", true));
}

#[test]
fn paths_are_made_absolute() {
    assert_eq!(fullpath("/abs/Cargo.toml", "/work"), "/abs/Cargo.toml");
    assert_eq!(fullpath("pgx/Cargo.toml", "/work"), "/work/pgx/Cargo.toml");
    assert_eq!(fullpath("Cargo.toml", "/"), "/Cargo.toml");
}
