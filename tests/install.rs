use pgx_schema::install::{
    build_args, find_library_file, get_extensiondir, get_pkglibdir, get_property, get_version,
    is_library_file, is_upgrade_script, versioned_script, versioned_script_path, InstallError,
    InstallTargets,
};

#[test]
fn versioned_script_orders_fragments_then_ddl() {
    let version = get_version("comment = 'ext'\ndefault_version = \"1.0\"\n").unwrap();
    assert_eq!(version, "1.0");
    let path = versioned_script_path("/usr/share/extension", "ext", &version);
    assert_eq!(path, "/usr/share/extension/ext--1.0.sql");
    let order = vec!["a.sql".to_string(), "b.sql".to_string()];
    let contents = vec!["CREATE TABLE a();".to_string(), "CREATE TABLE b();".to_string()];
    let script = versioned_script(&order, &contents, "D");
    assert_eq!(
        script,
        "--\n-- sql/a.sql\n--\nCREATE TABLE a();\n\n\n--\n-- sql/b.sql\n--\nCREATE TABLE b();\n\n\nD"
    );
    let a = script.find("CREATE TABLE a").unwrap();
    let b = script.find("CREATE TABLE b").unwrap();
    let d = script.rfind('D').unwrap();
    assert!(a < b && b < d);
}

#[test]
fn empty_load_order_is_just_the_ddl() {
    assert_eq!(versioned_script(&vec![], &vec![], "DDL;"), "DDL;");
}

#[test]
fn version_is_missing_without_property() {
    assert_eq!(get_version("comment = 'x'\n"), Err(InstallError::MissingVersion));
    assert_eq!(get_version(""), Err(InstallError::MissingVersion));
}

#[test]
fn property_trims_whitespace_and_quotes() {
    let control = "# comment\n  default_version   =   '0.5.0'  \r\nrelocatable = false\n";
    assert_eq!(get_property(control, "default_version"), Some("0.5.0".to_string()));
    assert_eq!(get_property(control, "relocatable"), Some("false".to_string()));
    assert_eq!(get_property(control, "superuser"), None);
}

#[test]
fn first_line_for_a_property_wins() {
    let control = "default_version = '1.0'\ndefault_version = '2.0'\n";
    assert_eq!(get_property(control, "default_version"), Some("1.0".to_string()));
}

#[test]
fn build_args_for_release_with_features_and_flags() {
    let args = build_args(true, "pg14 cshim", "  --offline\t-v ", "/tmp/target");
    assert_eq!(
        args,
        vec!["build", "--release", "--features", "pg14 cshim", "--target-dir", "/tmp/target", "--offline", "-v"]
    );
}

#[test]
fn build_args_skip_blank_features() {
    let args = build_args(false, " \u{3000} ", "", "target");
    assert_eq!(args, vec!["build", "--target-dir", "target"]);
}

#[test]
fn install_targets_rename_library() {
    let t = InstallTargets::new("ext.control", "ext", "/share/extension", "/lib", "target/debug", "libext.so");
    assert_eq!(t.control_src, "ext.control");
    assert_eq!(t.control_dest, "/share/extension/ext.control");
    assert_eq!(t.library_src, "target/debug/libext.so");
    assert_eq!(t.library_dest, "/lib/ext.so");
}

#[test]
fn library_file_is_found_when_unique() {
    let files = vec!["build".to_string(), "libext.d".to_string(), "libext.so".to_string(), "deps".to_string()];
    assert_eq!(find_library_file("ext", &files), Ok("libext.so".to_string()));
}

#[test]
fn library_file_missing_or_ambiguous_fails() {
    let none = vec!["libother.so".to_string(), "ext.so".to_string()];
    assert_eq!(find_library_file("ext", &none), Err(InstallError::LibraryNotFound));
    let two = vec!["libext.so".to_string(), "libext.dylib".to_string()];
    assert_eq!(
        find_library_file("ext", &two),
        Err(InstallError::AmbiguousLibrary(vec!["libext.so".to_string(), "libext.dylib".to_string()]))
    );
}

#[test]
fn library_suffixes() {
    assert!(is_library_file("libext.dll", "ext"));
    assert!(is_library_file("libmy_ext.dylib", "ext"));
    assert!(!is_library_file("libext.a", "ext"));
}

#[test]
fn upgrade_scripts_are_recognized() {
    assert!(is_upgrade_script("ext--1.0--1.1.sql", "ext"));
    assert!(!is_upgrade_script("ext--1.0.sql", "ext"));
    assert!(!is_upgrade_script("other--1.0--1.1.sql", "ext"));
    assert!(!is_upgrade_script("ext--1.0--1.1.txt", "ext"));
    assert!(!is_upgrade_script("ext--.sql", "ext"));
}

#[test]
fn pg_config_directories_are_trimmed() {
    assert_eq!(get_pkglibdir("/usr/lib/postgresql/14/lib\n"), "/usr/lib/postgresql/14/lib");
    assert_eq!(get_extensiondir(" /usr/share/postgresql/14\n"), "/usr/share/postgresql/14/extension");
}
