//! File locations, and the user's data directory.

use vstd::prelude::*;
use crate::text::{chars_of, push_char};

verus! {

/// `PathBuf::join` of a relative `part` onto `base` (Unix): a `'/'` goes
/// between them unless `base` is empty or already ends with one.
pub open spec fn path_join(base: Seq<char>, part: Seq<char>) -> Seq<char> {
    if base.len() == 0 || base.last() == '/' {
        base + part
    } else {
        base.push('/') + part
    }
}

/// `base` joined with the relative path `part`.
pub fn join_path(base: &str, part: &str) -> (res: String)
    ensures
        res@ == path_join(base@, part@),
{
    let b = chars_of(base);
    let mut res = String::new();
    res.append(base);
    if b.len() > 0 && b[b.len() - 1] != '/' {
        push_char(&mut res, '/');
    }
    res.append(part);
    res
}

/// `dirs::data_dir()`: the user's data directory, as text. It depends on the
/// platform and the environment (`$HOME`, `$XDG_DATA_HOME`), so nothing is
/// stated of it.
#[verifier::external_body]
pub(crate) fn data_dir() -> Option<String> {
    dirs::data_dir().map(|p| p.to_string_lossy().into_owned())
}

/// The name of the application's directory.
pub const APP_DIR_NAME: &'static str = "DrawbridgeVPN";

/// The application's directory inside a data directory.
pub open spec fn app_dir_in(data_dir: Seq<char>) -> Seq<char> {
    path_join(data_dir, APP_DIR_NAME@)
}

} // verus!
