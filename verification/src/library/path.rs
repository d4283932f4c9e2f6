//! Paths, written as text with `/` between their parts.

use vstd::prelude::*;
use vstd::string::{StrSliceExecFns, StringExecFns};

verus! {

/// The path `folder` extended by `name`: `name` alone where it starts at the
/// root or `folder` is empty, else `folder` and `name` with a `/` between
/// them, unless `folder` ends with one.
pub open spec fn joined(folder: Seq<char>, name: Seq<char>) -> Seq<char> {
    if name.len() > 0 && name[0] == '/' {
        name
    } else if folder.len() == 0 {
        name
    } else if folder.last() == '/' {
        folder + name
    } else {
        folder + seq!['/'] + name
    }
}

/// The path `folder` extended by `name`.
pub fn join(folder: &str, name: &str) -> (path: String)
    ensures
        path@ == joined(folder@, name@),
{
    let name_len = name.unicode_len();
    let folder_len = folder.unicode_len();
    if name_len > 0 && name.get_char(0) == '/' {
        String::from_str(name)
    } else if folder_len == 0 {
        String::from_str(name)
    } else {
        let mut path = String::from_str(folder);
        if folder.get_char(folder_len - 1) != '/' {
            proof {
                reveal_strlit("/");
                assert("/"@ =~= seq!['/']);
            }
            path.append("/");
        }
        path.append(name);
        path
    }
}

} // verus!
