//! The path formatter and the prompt: how the working directory is shown.

use crate::home::home_directory;
use crate::text::to_chars;
use vstd::prelude::*;

verus! {

/// `path` as it is shown: where it begins with the home directory, that
/// prefix, and no later occurrence of it, gives way to `~`. Without a home
/// directory the path is shown as it is.
pub open spec fn abbreviated(path: Seq<char>, home: Option<Seq<char>>) -> Seq<char> {
    match home {
        Some(h) => if h.is_prefix_of(path) {
            seq!['~'] + path.skip(h.len() as int)
        } else {
            path
        },
        None => path,
    }
}

/// The prompt: the working directory as it is shown, a space, a dollar sign
/// and a space; the dollar sign and the space alone where the working
/// directory is not known.
pub open spec fn prompt_text(cwd: Option<Seq<char>>, home: Option<Seq<char>>) -> Seq<char> {
    match cwd {
        Some(dir) => abbreviated(dir, home) + seq![' ', '$', ' '],
        None => seq!['$', ' '],
    }
}

/// Tells whether `text` begins with `prefix`.
fn begins_with(text: &Vec<char>, prefix: &Vec<char>) -> (r: bool)
    ensures
        r == prefix@.is_prefix_of(text@),
{
    if prefix.len() > text.len() {
        return false;
    }
    let mut i: usize = 0;
    while i < prefix.len()
        invariant
            prefix.len() <= text.len(),
            i <= prefix.len(),
            forall|k: int| 0 <= k < i ==> prefix[k] == text[k],
        decreases prefix.len() - i,
    {
        if prefix[i] != text[i] {
            return false;
        }
        i += 1;
    }
    true
}

/// Renders `path` for display, given the home directory (`None` where it
/// cannot be found).
pub fn format_path(path: &str, home: Option<&str>) -> (shown: String)
    ensures
        shown@ == abbreviated(path@, home.deep_view()),
        home matches Some(h) ==> h@.is_prefix_of(path@) ==> shown@ == seq!['~'] + path@.skip(
            h@.len() as int,
        ),
        home matches Some(h) ==> !h@.is_prefix_of(path@) ==> shown@ == path@,
        home is None ==> shown@ == path@,
{
    match home {
        Some(h) => {
            let p = to_chars(path);
            let q = to_chars(h);
            if begins_with(&p, &q) {
                let mut shown = String::from_str("~");
                proof {
                    reveal_strlit("~");
                }
                shown.append(path.substring_char(q.len(), p.len()));
                shown
            } else {
                path.to_owned()
            }
        },
        None => path.to_owned(),
    }
}

/// Renders `path` for display, with the home directory of the user who runs
/// the shell. Whatever home directory is found, the result is `path` itself
/// or `~` in place of a prefix of `path`.
pub fn formatted_pwd(path: &str) -> (shown: String)
    ensures
        exists|home: Option<Seq<char>>| shown@ == #[trigger] abbreviated(path@, home),
        shown@ == path@ || exists|n: int|
            0 <= n <= path@.len() && shown@ == seq!['~'] + #[trigger] path@.skip(n),
{
    let home = home_directory();
    match &home {
        Some(h) => {
            let shown = format_path(path, Some(h.as_str()));
            shown
        },
        None => {
            let shown = format_path(path, None);
            shown
        },
    }
}

/// The prompt for the working directory `cwd` (`None` where it is not
/// known), given the home directory.
pub fn prompt_with(cwd: Option<&str>, home: Option<&str>) -> (text: String)
    ensures
        text@ == prompt_text(cwd.deep_view(), home.deep_view()),
{
    match cwd {
        Some(dir) => {
            let mut text = format_path(dir, home);
            proof {
                reveal_strlit(" $ ");
            }
            text.append(" $ ");
            text
        },
        None => {
            proof {
                reveal_strlit("$ ");
            }
            String::from_str("$ ")
        },
    }
}

/// The prompt for the working directory `cwd` (`None` where it is not
/// known), with the home directory of the user who runs the shell.
pub fn prompt(cwd: Option<&str>) -> (text: String)
    ensures
        exists|home: Option<Seq<char>>| text@ == #[trigger] prompt_text(cwd.deep_view(), home),
        cwd is None ==> text@ == seq!['$', ' '],
{
    match cwd {
        Some(dir) => {
            let mut text = formatted_pwd(dir);
            let ghost home = choose|home: Option<Seq<char>>|
                text@ == #[trigger] abbreviated(dir@, home);
            proof {
                reveal_strlit(" $ ");
            }
            text.append(" $ ");
            assert(text@ == prompt_text(cwd.deep_view(), home));
            text
        },
        None => {
            let text = prompt_with(None, None);
            text
        },
    }
}

} // verus!
