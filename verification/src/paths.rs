//! Where the app keeps its files inside its data directory.
use vstd::prelude::*;

use crate::text::ends_with_spec;

verus! {

/// Whether `c` separates path components (`/` everywhere, `\\` on Windows).
pub open spec fn is_separator(c: char) -> bool {
    c == '/' || c == '\\'
}

/// Whether a directory may start with a Windows verbatim prefix (`\\?\`),
/// onto which the standard library normalises what it joins.
pub open spec fn maybe_verbatim(base: Seq<char>) -> bool {
    base.len() >= 3 && is_separator(base[0]) && is_separator(base[1]) && base[2] == '?'
}

/// What joining a plain file name onto a directory gives: the directory and
/// the name when the directory is empty or ends in `/`; otherwise the
/// directory, exactly one separator, and the name. Which separator (and, after
/// a trailing `\\` or a bare drive such as `C:`, whether one) depends on the
/// platform: on Windows `\\` is a separator and `C:name` stays relative to the
/// drive, elsewhere `/` is added.
pub open spec fn joined_path(base: Seq<char>, file_name: Seq<char>, joined: Seq<char>) -> bool {
    if base.len() == 0 || base.last() == '/' {
        joined == base + file_name
    } else if base.last() == '\\' {
        joined == base + file_name || joined == base + seq!['/'] + file_name
    } else if base.len() == 2 && base[1] == ':' {
        joined == base + file_name || joined == base + seq!['/'] + file_name || joined == base
            + seq!['\\'] + file_name
    } else {
        joined == base + seq!['/'] + file_name || joined == base + seq!['\\'] + file_name
    }
}

/// Whether `name` is a plain relative file name: not empty, not `.` or `..`,
/// with no separator and no drive colon.
pub open spec fn plain_file_name(name: Seq<char>) -> bool {
    &&& name.len() > 0
    &&& name != seq!['.']
    &&& name != seq!['.', '.']
    &&& !name.contains('/')
    &&& !name.contains('\\')
    &&& !name.contains(':')
}

/// Calls `Path::join` and converts the joined path back to a string. For a
/// relative file name the standard library appends the name, after the
/// platform's separator when the directory does not already end in one
/// (`PathBuf::push`); `joined_path` states the possible results. Onto a
/// directory with a Windows verbatim prefix the directory part is normalised
/// (`.` and `..` removed); of that result only that the name comes last is
/// claimed.
#[verifier::external_body]
fn join_file_name(base: &str, file_name: &str) -> (r: String)
    requires
        plain_file_name(file_name@),
    ensures
        !maybe_verbatim(base@) ==> joined_path(base@, file_name@, r@),
        maybe_verbatim(base@) ==> ends_with_spec(r@, file_name@),
{
    std::path::Path::new(base).join(file_name).to_string_lossy().into_owned()
}

/// The app-name cache file in the data directory.
pub fn default_cache_path(base_dir: &str) -> (r: String)
    ensures
        !maybe_verbatim(base_dir@) ==> joined_path(base_dir@, "app_name_cache.json"@, r@),
        maybe_verbatim(base_dir@) ==> ends_with_spec(r@, "app_name_cache.json"@),
{
    proof {
        reveal_strlit("app_name_cache.json");
    }
    join_file_name(base_dir, "app_name_cache.json")
}

/// The usage database in the data directory.
pub fn default_db_path(base_dir: &str) -> (r: String)
    ensures
        !maybe_verbatim(base_dir@) ==> joined_path(base_dir@, "trackmln.db"@, r@),
        maybe_verbatim(base_dir@) ==> ends_with_spec(r@, "trackmln.db"@),
{
    proof {
        reveal_strlit("trackmln.db");
    }
    join_file_name(base_dir, "trackmln.db")
}

/// The settings file in the data directory.
pub fn default_settings_path(base_dir: &str) -> (r: String)
    ensures
        !maybe_verbatim(base_dir@) ==> joined_path(base_dir@, "settings.json"@, r@),
        maybe_verbatim(base_dir@) ==> ends_with_spec(r@, "settings.json"@),
{
    proof {
        reveal_strlit("settings.json");
    }
    join_file_name(base_dir, "settings.json")
}

} // verus!
