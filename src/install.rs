//! The install pipeline's decisions: the build invocation, where each
//! artifact goes, which compiled library to install, the version read from
//! the control file, and the text of the versioned install script. Reading
//! and copying files and running subprocesses are left to the caller.

use vstd::prelude::*;
use crate::text::{
    contains_sub, ends_with, find, has_prefix, has_suffix, runs, split_runs, starts_with,
    strings_view, trim, trim_str,
};

verus! {

/// Why an install step failed.
#[derive(Debug, Clone, PartialEq, Eq)]
pub enum InstallError {
    /// No file in the build output looks like the extension's library.
    LibraryNotFound,
    /// Several files in the build output look like the extension's library.
    AmbiguousLibrary(Vec<String>),
    /// The control file has no `default_version` property.
    MissingVersion,
}

/// Where the control file and the compiled library are copied from and to.
#[derive(Debug, Clone, PartialEq, Eq)]
pub struct InstallTargets {
    pub control_src: String,
    pub control_dest: String,
    pub library_src: String,
    pub library_dest: String,
}

/// Unicode `White_Space`, the characters `str::trim` removes.
pub open spec fn is_unicode_whitespace(c: char) -> bool {
    ('\t' <= c && c <= '\r') || c == ' ' || c == '\u{85}' || c == '\u{A0}' || c == '\u{1680}' || (
    '\u{2000}' <= c && c <= '\u{200A}') || c == '\u{2028}' || c == '\u{2029}' || c == '\u{202F}' || c
        == '\u{205F}' || c == '\u{3000}'
}

/// `s` holds something besides whitespace.
pub open spec fn has_content(s: Seq<char>) -> bool {
    exists|i: int| 0 <= i < s.len() && !is_unicode_whitespace(#[trigger] s[i])
}

/// The arguments of the build invocation: `build`, then `--release` for a
/// release build, then `--features <features>` when a feature list is
/// given, then the target directory, then each word of the extra flags.
pub open spec fn build_args_spec(
    is_release: bool,
    features: Seq<char>,
    flags: Seq<char>,
    target_dir: Seq<char>,
) -> Seq<Seq<char>> {
    seq!["build"@] + (if is_release {
        seq!["--release"@]
    } else {
        Seq::empty()
    }) + (if has_content(features) {
        seq!["--features"@, features]
    } else {
        Seq::empty()
    }) + seq!["--target-dir"@, target_dir] + runs(flags, false)
}

pub open spec fn slash_join(dir: Seq<char>, file: Seq<char>) -> Seq<char> {
    dir + "/"@ + file
}

/// The path of the versioned install script.
pub open spec fn script_path(extdir: Seq<char>, extname: Seq<char>, version: Seq<char>) -> Seq<char> {
    extdir + "/"@ + extname + "--"@ + version + ".sql"@
}

/// One fragment of the install script, under a banner naming its source.
pub open spec fn fragment_block(name: Seq<char>, contents: Seq<char>) -> Seq<char> {
    "--\n-- sql/"@ + name + "\n--\n"@ + contents + "\n\n\n"@
}

pub open spec fn fragments(names: Seq<Seq<char>>, contents: Seq<Seq<char>>) -> Seq<char>
    decreases names.len(),
{
    if names.len() == 0 || contents.len() == 0 {
        Seq::empty()
    } else {
        fragments(names.drop_last(), contents.drop_last()) + fragment_block(names.last(), contents.last())
    }
}

/// An upgrade script of the extension: `<extname>--<from>--<to>.sql`.
pub open spec fn is_upgrade_script_name(f: Seq<char>, extname: Seq<char>) -> bool {
    &&& has_prefix(f, extname + "--"@)
    &&& has_suffix(f, ".sql"@)
    &&& extname.len() + 2 + 4 <= f.len()
    &&& contains_sub(f.subrange(extname.len() as int + 2, f.len() as int - 4), "--"@)
}

/// A compiled library of the extension: `lib...<extname>...` with a
/// shared-library suffix.
pub open spec fn is_library_name(f: Seq<char>, extname: Seq<char>) -> bool {
    &&& contains_sub(f, extname)
    &&& has_prefix(f, "lib"@)
    &&& (has_suffix(f, ".so"@) || has_suffix(f, ".dylib"@) || has_suffix(f, ".dll"@))
}

/// The position of the first `=` of a line.
pub open spec fn first_equals(line: Seq<char>, i: int) -> bool {
    0 <= i < line.len() && line[i] == '=' && forall|j: int| 0 <= j < i ==> line[j] != '='
}

/// The value a line gives to the property `name`: the line is
/// `key = value` with `key` equal to `name` once trimmed; the value is
/// trimmed of whitespace, then of quotes.
pub open spec fn line_property(line: Seq<char>, name: Seq<char>) -> Option<Seq<char>> {
    if exists|i: int| first_equals(line, i) {
        let i = choose|i: int| first_equals(line, i);
        if trim(line.take(i), false) == name {
            Some(trim(trim(line.skip(i + 1), false), true))
        } else {
            None
        }
    } else {
        None
    }
}

/// The value that the first line mentioning property `name` gives it.
pub open spec fn lines_property(lines: Seq<Seq<char>>, name: Seq<char>) -> Option<Seq<char>>
    decreases lines.len(),
{
    if lines.len() == 0 {
        None
    } else {
        match line_property(lines[0], name) {
            Some(v) => Some(v),
            None => lines_property(lines.drop_first(), name),
        }
    }
}

/// The value of property `name` in a control file.
pub open spec fn control_property(text: Seq<char>, name: Seq<char>) -> Option<Seq<char>> {
    lines_property(runs(text, true), name)
}

fn is_whitespace_char(c: char) -> (r: bool)
    ensures
        r == is_unicode_whitespace(c),
{
    ('\t' <= c && c <= '\r') || c == ' ' || c == '\u{85}' || c == '\u{A0}' || c == '\u{1680}' || (
    '\u{2000}' <= c && c <= '\u{200A}') || c == '\u{2028}' || c == '\u{2029}' || c == '\u{202F}' || c
        == '\u{205F}' || c == '\u{3000}'
}

fn has_content_exec(s: &str) -> (r: bool)
    ensures
        r == has_content(s@),
{
    let n = s.unicode_len();
    let mut i: usize = 0;
    while i < n
        invariant
            n == s@.len(),
            i <= n,
            forall|j: int| 0 <= j < i ==> is_unicode_whitespace(#[trigger] s@[j]),
        decreases n - i,
    {
        if !is_whitespace_char(s.get_char(i)) {
            return true;
        }
        i = i + 1;
    }
    false
}

fn push_str(v: &mut Vec<String>, s: &str)
    ensures
        strings_view(final(v)@) == strings_view(old(v)@).push(s@),
{
    let ghost before = strings_view(v@);
    v.push(String::from_str(s));
    assert(strings_view(v@) =~= before.push(s@));
}

/// The arguments of the build invocation.
pub fn build_args(is_release: bool, features: &str, flags: &str, target_dir: &str) -> (r: Vec<String>)
    ensures
        strings_view(r@) == build_args_spec(is_release, features@, flags@, target_dir@),
{
    let mut args: Vec<String> = Vec::new();
    push_str(&mut args, "build");
    if is_release {
        push_str(&mut args, "--release");
    }
    if has_content_exec(features) {
        push_str(&mut args, "--features");
        push_str(&mut args, features);
    }
    push_str(&mut args, "--target-dir");
    push_str(&mut args, target_dir);
    let words = split_runs(flags, false);
    let ghost head = strings_view(args@);
    let mut i: usize = 0;
    while i < words.len()
        invariant
            i <= words@.len(),
            strings_view(args@) == head + strings_view(words@).take(i as int),
        decreases words.len() - i,
    {
        let ghost before = strings_view(args@);
        args.push(words[i].clone());
        assert(strings_view(args@) =~= before.push(words@[i as int]@));
        assert(strings_view(words@).take(i + 1) =~= strings_view(words@).take(i as int).push(words@[i as int]@));
        i = i + 1;
    }
    assert(strings_view(words@).take(words@.len() as int) =~= strings_view(words@));
    assert(strings_view(args@) =~= build_args_spec(is_release, features@, flags@, target_dir@));
    args
}

fn slash_join_exec(dir: &str, file: &str) -> (r: String)
    ensures
        r@ == slash_join(dir@, file@),
{
    let mut s = String::from_str(dir);
    s.append("/");
    s.append(file);
    s
}

impl InstallTargets {
    /// Where the control file goes (into the extension directory, under its
    /// own name) and where the library goes (into the package library
    /// directory, renamed `<extname>.so`).
    pub fn new(
        control_file: &str,
        extname: &str,
        extdir: &str,
        pkgdir: &str,
        libpath: &str,
        libfile: &str,
    ) -> (r: InstallTargets)
        ensures
            r.control_src@ == control_file@,
            r.control_dest@ == slash_join(extdir@, control_file@),
            r.library_src@ == slash_join(libpath@, libfile@),
            r.library_dest@ == slash_join(pkgdir@, extname@ + ".so"@),
    {
        let mut lib_name = String::from_str(extname);
        lib_name.append(".so");
        InstallTargets {
            control_src: String::from_str(control_file),
            control_dest: slash_join_exec(extdir, control_file),
            library_src: slash_join_exec(libpath, libfile),
            library_dest: slash_join_exec(pkgdir, lib_name.as_str()),
        }
    }
}

/// The path of the versioned install script `<extdir>/<extname>--<version>.sql`.
pub fn versioned_script_path(extdir: &str, extname: &str, version: &str) -> (r: String)
    ensures
        r@ == script_path(extdir@, extname@, version@),
{
    let mut s = String::from_str(extdir);
    s.append("/");
    s.append(extname);
    s.append("--");
    s.append(version);
    s.append(".sql");
    s
}

/// The text of the versioned install script: each fragment of the load
/// order, in that order, under a banner naming it, then the graph's DDL.
pub fn versioned_script(load_order: &Vec<String>, contents: &Vec<String>, ddl: &str) -> (r: String)
    requires
        load_order@.len() == contents@.len(),
    ensures
        r@ == fragments(strings_view(load_order@), strings_view(contents@)) + ddl@,
{
    let ghost names = strings_view(load_order@);
    let ghost texts = strings_view(contents@);
    let mut out = String::new();
    let mut i: usize = 0;
    assert(out@ =~= fragments(names.take(0), texts.take(0)));
    while i < load_order.len()
        invariant
            i <= load_order@.len(),
            load_order@.len() == contents@.len(),
            names == strings_view(load_order@),
            texts == strings_view(contents@),
            out@ == fragments(names.take(i as int), texts.take(i as int)),
        decreases load_order.len() - i,
    {
        assert(names.take(i + 1).drop_last() =~= names.take(i as int));
        assert(texts.take(i + 1).drop_last() =~= texts.take(i as int));
        out.append("--\n-- sql/");
        out.append(load_order[i].as_str());
        out.append("\n--\n");
        out.append(contents[i].as_str());
        out.append("\n\n\n");
        assert(out@ =~= fragments(names.take(i + 1), texts.take(i + 1)));
        i = i + 1;
    }
    assert(names.take(names.len() as int) =~= names);
    assert(texts.take(texts.len() as int) =~= texts);
    out.append(ddl);
    out
}

/// Whether `filename` is an upgrade script of the extension,
/// `<extname>--<from>--<to>.sql`, to be copied as it is.
pub fn is_upgrade_script(filename: &str, extname: &str) -> (r: bool)
    ensures
        r == is_upgrade_script_name(filename@, extname@),
{
    let mut prefix = String::from_str(extname);
    prefix.append("--");
    if !starts_with(filename, prefix.as_str()) || !ends_with(filename, ".sql") {
        return false;
    }
    let n = filename.unicode_len();
    let e = extname.unicode_len();
    if n < 6 || e > n - 6 {
        return false;
    }
    let middle = filename.substring_char(e + 2, n - 4);
    find(middle, "--").is_some()
}

/// Whether `filename` looks like a compiled library of the extension.
pub fn is_library_file(filename: &str, extname: &str) -> (r: bool)
    ensures
        r == is_library_name(filename@, extname@),
{
    find(filename, extname).is_some() && starts_with(filename, "lib") && (ends_with(filename, ".so")
        || ends_with(filename, ".dylib") || ends_with(filename, ".dll"))
}

/// The files that look like the extension's compiled library, in order.
pub open spec fn library_matches(files: Seq<Seq<char>>, extname: Seq<char>) -> Seq<Seq<char>>
    decreases files.len(),
{
    if files.len() == 0 {
        Seq::empty()
    } else {
        library_matches(files.drop_last(), extname) + if is_library_name(files.last(), extname) {
            seq![files.last()]
        } else {
            Seq::empty()
        }
    }
}

/// Picks the extension's compiled library among the files of the build
/// output directory: it must be the only one that looks like it.
pub fn find_library_file(extname: &str, filenames: &Vec<String>) -> (r: Result<String, InstallError>)
    ensures
        match r {
            Ok(f) => library_matches(strings_view(filenames@), extname@) == seq![f@],
            Err(InstallError::LibraryNotFound) => library_matches(strings_view(filenames@), extname@).len() == 0,
            Err(InstallError::AmbiguousLibrary(names)) => names@.len() >= 2 && strings_view(names@)
                == library_matches(strings_view(filenames@), extname@),
            Err(InstallError::MissingVersion) => false,
        },
{
    let ghost files = strings_view(filenames@);
    let mut found: Vec<String> = Vec::new();
    let mut i: usize = 0;
    assert(files.take(0) =~= Seq::<Seq<char>>::empty());
    assert(strings_view(found@) =~= Seq::<Seq<char>>::empty());
    while i < filenames.len()
        invariant
            i <= filenames@.len(),
            files == strings_view(filenames@),
            strings_view(found@) == library_matches(files.take(i as int), extname@),
        decreases filenames.len() - i,
    {
        assert(files.take(i + 1).drop_last() =~= files.take(i as int));
        assert(files.take(i + 1).last() == filenames@[i as int]@);
        if is_library_file(filenames[i].as_str(), extname) {
            let ghost before = strings_view(found@);
            found.push(filenames[i].clone());
            assert(strings_view(found@) =~= before.push(filenames@[i as int]@));
            assert(strings_view(found@) =~= library_matches(files.take(i + 1), extname@));
        } else {
            assert(strings_view(found@) =~= library_matches(files.take(i + 1), extname@));
        }
        i = i + 1;
    }
    assert(files.take(files.len() as int) =~= files);
    if found.len() == 0 {
        Err(InstallError::LibraryNotFound)
    } else if found.len() == 1 {
        let f = found[0].clone();
        assert(strings_view(found@) =~= seq![f@]);
        Ok(f)
    } else {
        Err(InstallError::AmbiguousLibrary(found))
    }
}

fn property_of_line(line: &str, name: &str) -> (r: Option<String>)
    ensures
        match r {
            Some(v) => line_property(line@, name@) == Some(v@),
            None => line_property(line@, name@) is None,
        },
{
    match find(line, "=") {
        None => {
            proof {
                reveal_strlit("=");
                assert forall|i: int| !first_equals(line@, i) by {
                    if first_equals(line@, i) {
                        assert(line@.subrange(i, i + 1) =~= "="@);
                        assert(crate::text::occurs_at(line@, "="@, i));
                    }
                }
            }
            None
        },
        Some(i) => {
            proof {
                reveal_strlit("=");
                assert(line@.subrange(i as int, i + 1) =~= "="@);
                assert(line@[i as int] == line@.subrange(i as int, i + 1)[0]);
                assert("="@[0] == '=');
                assert forall|j: int| 0 <= j < i implies line@[j] != '=' by {
                    if line@[j] == '=' {
                        assert(line@.subrange(j, j + 1) =~= "="@);
                        assert(crate::text::occurs_at(line@, "="@, j));
                    }
                }
                assert(first_equals(line@, i as int));
                let c = choose|c: int| first_equals(line@, c);
                if c < i {
                    assert(line@[c] != '=');
                } else if i < c {
                    assert(line@[i as int] != '=');
                }
            }
            let n = line.unicode_len();
            let key = trim_str(line.substring_char(0, i), false);
            assert(line@.subrange(0, i as int) =~= line@.take(i as int));
            if !crate::text::str_eq(key.as_str(), name) {
                return None;
            }
            let value = trim_str(line.substring_char(i + 1, n), false);
            assert(line@.subrange(i + 1, n as int) =~= line@.skip(i + 1));
            Some(trim_str(value.as_str(), true))
        },
    }
}

/// The value of property `name` in the text of a control file: from the
/// first line `name = value`, with whitespace and quotes trimmed.
pub fn get_property(control: &str, name: &str) -> (r: Option<String>)
    ensures
        match r {
            Some(v) => control_property(control@, name@) == Some(v@),
            None => control_property(control@, name@) is None,
        },
{
    let lines = split_runs(control, true);
    let ghost ls = strings_view(lines@);
    let mut i: usize = 0;
    assert(ls.skip(0) =~= ls);
    while i < lines.len()
        invariant
            i <= lines@.len(),
            ls == strings_view(lines@),
            ls == runs(control@, true),
            lines_property(ls, name@) == lines_property(ls.skip(i as int), name@),
        decreases lines.len() - i,
    {
        assert(ls.skip(i as int)[0] == lines@[i as int]@);
        assert(ls.skip(i as int).drop_first() =~= ls.skip(i + 1));
        match property_of_line(lines[i].as_str(), name) {
            Some(v) => return Some(v),
            None => {},
        }
        i = i + 1;
    }
    None
}

/// The extension's version: the control file's `default_version`.
pub fn get_version(control: &str) -> (r: Result<String, InstallError>)
    ensures
        match r {
            Ok(v) => control_property(control@, "default_version"@) == Some(v@),
            Err(e) => e == InstallError::MissingVersion && control_property(control@, "default_version"@) is None,
        },
{
    match get_property(control, "default_version") {
        Some(v) => Ok(v),
        None => Err(InstallError::MissingVersion),
    }
}

/// The package library directory, from what `pg_config --pkglibdir` printed.
pub fn get_pkglibdir(pg_config_output: &str) -> (r: String)
    ensures
        r@ == trim(pg_config_output@, false),
{
    trim_str(pg_config_output, false)
}

/// The extension directory: `extension` under the shared directory that
/// `pg_config --sharedir` printed.
pub fn get_extensiondir(pg_config_output: &str) -> (r: String)
    ensures
        r@ == trim(pg_config_output@, false) + "/extension"@,
{
    let mut dir = trim_str(pg_config_output, false);
    dir.append("/extension");
    dir
}

} // verus!
