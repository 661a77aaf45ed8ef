//! File-system paths as text: joining, and `~` for the home directory.
use vstd::prelude::*;
use crate::text::{same_text, starts_with, starts_with_str, string_of, chars_of};

verus! {

/// What `Path::join` gives for `base` and `rest`, as text.
pub uninterp spec fn path_joined(base: Seq<char>, rest: Seq<char>) -> Seq<char>;

/// Joins two paths with `std::path::Path::join`.
/// Trusted: the result is the named `path_joined(base, rest)`, with the two
/// rules that `Path::join` and `PathBuf::push` document: an absolute `rest`
/// replaces `base`, and a relative `rest` extends a `base` that does not end
/// in a separator after one `/`. What happens to an empty `base` or `rest`,
/// or a `base` that already ends in `/`, is left to the name. Both inputs are
/// UTF-8, so the text is read back without loss.
#[verifier::external_body]
pub fn path_join(base: &str, rest: &str) -> (r: String)
    ensures
        r@ == path_joined(base@, rest@),
        rest@.len() > 0 && rest@[0] == '/' ==> r@ == rest@,
        rest@.len() > 0 && rest@[0] != '/' && base@.len() > 0 && base@.last() != '/'
            ==> r@ == base@ + seq!['/'] + rest@,
{
    std::path::Path::new(base).join(rest).to_string_lossy().into_owned()
}

/// The home directory from `dirs::home_dir`. It depends on the environment,
/// so nothing is stated of it.
#[verifier::external_body]
pub(crate) fn home_dir() -> Option<String> {
    dirs::home_dir().map(|p| p.to_string_lossy().into_owned())
}

/// `path` with a leading `~` read as the home directory: `~` alone is the
/// home directory, `~/rest` is `rest` under it; without a home directory
/// `~` stays as it is.
pub open spec fn expanded(path: Seq<char>, home: Option<Seq<char>>) -> Seq<char> {
    if path == "~"@ {
        match home {
            Some(h) => h,
            None => path,
        }
    } else if starts_with(path, "~/"@) {
        path_joined(
            match home {
                Some(h) => h,
                None => "~"@,
            },
            path.skip(2),
        )
    } else {
        path
    }
}

/// Expands `~` against the given home directory.
pub fn expand_tilde_in(path: &str, home: Option<&str>) -> (r: String)
    ensures
        r@ == expanded(path@, match home {
            Some(h) => Some(h@),
            None => None,
        }),
{
    if same_text(path, "~") {
        return match home {
            Some(h) => h.to_string(),
            None => path.to_string(),
        };
    }
    if starts_with_str(path, "~/") {
        proof {
            reveal_strlit("~/");
        }
        let v = chars_of(path);
        let rest = string_of(&v, 2, v.len());
        assert(rest@ =~= path@.skip(2));
        let base = match home {
            Some(h) => h,
            None => "~",
        };
        return path_join(base, rest.as_str());
    }
    path.to_string()
}

/// Expands `~` against the user's home directory.
pub fn expand_tilde(path: &str) -> (r: String)
    ensures
        exists|home: Option<Seq<char>>| r@ == expanded(path@, home),
{
    let home = home_dir();
    let r = match &home {
        Some(h) => expand_tilde_in(path, Some(h.as_str())),
        None => expand_tilde_in(path, None),
    };
    proof {
        let h = match home {
            Some(h) => Some(h@),
            None => None,
        };
        assert(r@ == expanded(path@, h));
    }
    r
}

} // verus!
