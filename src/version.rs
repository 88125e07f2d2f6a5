//! Decisions of the workspace version bump: which manifests to visit, and
//! how a dependency's version requirement is rewritten.

use vstd::prelude::*;
use crate::text::{str_eq, ends_with, starts_with, has_prefix, has_suffix};

verus! {

/// Whether a character is numeric in Unicode (general categories `Nd`,
/// `Nl` and `No`).
pub uninterp spec fn numeric_char(c: char) -> bool;

/// Relies on `char::is_numeric`: the Unicode numeric test, which holds of
/// the ASCII digits.
#[verifier::external_body]
fn is_numeric(c: char) -> (r: bool)
    ensures
        r == numeric_char(c),
        '0' <= c <= '9' ==> r,
{
    c.is_numeric()
}

/// Position `i` holds the first numeric character of `s`.
pub open spec fn first_numeric(s: Seq<char>, i: int) -> bool {
    0 <= i < s.len() && numeric_char(s[i]) && forall|j: int| 0 <= j < i ==> !numeric_char(#[trigger] s[j])
}

pub open spec fn has_numeric(s: Seq<char>) -> bool {
    exists|i: int| 0 <= i < s.len() && numeric_char(#[trigger] s[i])
}

/// The rewritten requirement: one that starts with a digit is kept as it
/// is; otherwise its operator prefix (everything before the first numeric
/// character) is kept and the version after it replaced.
pub open spec fn new_version_spec(old: Seq<char>, new: Seq<char>) -> Seq<char> {
    if numeric_char(old[0]) {
        old
    } else {
        let i = choose|i: int| first_numeric(old, i);
        old.take(i) + new
    }
}

/// Rewrites the version requirement `old_version_specifier` to point at
/// `new_version`, keeping its operator prefix (`=`, `^`, `~`, ..).
pub fn parse_new_version(old_version_specifier: &str, new_version: &str) -> (r: String)
    requires
        old_version_specifier@.len() > 0,
        has_numeric(old_version_specifier@),
    ensures
        r@ == new_version_spec(old_version_specifier@, new_version@),
{
    let mut result = String::new();
    if is_numeric(old_version_specifier.get_char(0)) {
        result.append(old_version_specifier);
        return result;
    }
    let n = old_version_specifier.unicode_len();
    let mut i: usize = 0;
    while i < n && !is_numeric(old_version_specifier.get_char(i))
        invariant
            n == old_version_specifier@.len(),
            i <= n,
            forall|j: int| 0 <= j < i ==> !numeric_char(#[trigger] old_version_specifier@[j]),
        decreases n - i,
    {
        i = i + 1;
    }
    proof {
        let s = old_version_specifier@;
        let k = choose|k: int| 0 <= k < s.len() && numeric_char(#[trigger] s[k]);
        if i == n {
            assert(!numeric_char(s[k]));
        }
        assert(first_numeric(s, i as int));
        let c = choose|c: int| first_numeric(s, c);
        if c < i {
            assert(!numeric_char(s[c]));
        } else if i < c {
            assert(!numeric_char(s[i as int]));
        }
    }
    result.append(old_version_specifier.substring_char(0, i));
    result.append(new_version);
    assert(old_version_specifier@.subrange(0, i as int) =~= old_version_specifier@.take(i as int));
    result
}

/// `parse_new_version` where it applies: `None` when the old requirement
/// is empty or holds no numeric character, which leaves nothing to rewrite.
pub fn try_parse_new_version(old_version_specifier: &str, new_version: &str) -> (r: Option<String>)
    ensures
        match r {
            Some(v) => old_version_specifier@.len() > 0 && has_numeric(old_version_specifier@) && v@
                == new_version_spec(old_version_specifier@, new_version@),
            None => old_version_specifier@.len() == 0 || !has_numeric(old_version_specifier@),
        },
{
    let n = old_version_specifier.unicode_len();
    let mut i: usize = 0;
    while i < n
        invariant
            n == old_version_specifier@.len(),
            i <= n,
            forall|j: int| 0 <= j < i ==> !numeric_char(#[trigger] old_version_specifier@[j]),
        decreases n - i,
    {
        if is_numeric(old_version_specifier.get_char(i)) {
            return Some(parse_new_version(old_version_specifier, new_version));
        }
        i = i + 1;
    }
    None
}

/// Directories that the manifest search never enters.
pub open spec fn is_ignored_dir_name(name: Seq<char>) -> bool {
    name == ".git"@ || name == "target"@
}

/// Whether the search may enter or visit this entry: anything but an
/// ignored directory.
pub fn is_not_excluded_dir(file_name: &str, is_dir: bool) -> (r: bool)
    ensures
        r == !(is_dir && is_ignored_dir_name(file_name@)),
{
    if is_dir {
        return !(str_eq(file_name, ".git") || str_eq(file_name, "target"));
    }
    true
}

/// Whether this entry is a package manifest: a file named `Cargo.toml`.
pub fn is_cargo_toml_file(file_name: &str, is_file: bool) -> (r: bool)
    ensures
        r == (is_file && file_name@ == "Cargo.toml"@),
{
    if is_file {
        return str_eq(file_name, "Cargo.toml");
    }
    false
}

/// The full path of `test_path`: itself when absolute, else under
/// `current_dir`.
pub open spec fn fullpath_spec(test_path: Seq<char>, current_dir: Seq<char>) -> Seq<char> {
    if has_prefix(test_path, "/"@) {
        test_path
    } else if has_suffix(current_dir, "/"@) {
        current_dir + test_path
    } else {
        current_dir + "/"@ + test_path
    }
}

/// The full path of `test_path`, resolved against `current_dir`.
pub fn fullpath(test_path: &str, current_dir: &str) -> (r: String)
    ensures
        r@ == fullpath_spec(test_path@, current_dir@),
{
    if starts_with(test_path, "/") {
        return String::from_str(test_path);
    }
    let mut path = String::from_str(current_dir);
    if !ends_with(current_dir, "/") {
        path.append("/");
    }
    path.append(test_path);
    path
}

} // verus!
