//! Paths as texts whose parts are separated by `/`.

use crate::text::{is_prefix, starts_with};
use vstd::prelude::*;
use vstd::string::*;

verus! {

/// `rel` under `base`: `rel` itself where it starts at the root, else
/// `base`, a separator where `base` does not end in one, and `rel`.
pub open spec fn joined(base: Seq<char>, rel: Seq<char>) -> Seq<char> {
    if rel.len() > 0 && rel[0] == '/' {
        rel
    } else if base.len() == 0 || base.last() == '/' {
        base + rel
    } else {
        base + seq!['/'] + rel
    }
}

/// `path` without a leading `./`.
pub open spec fn from_here(path: Seq<char>) -> Seq<char> {
    if is_prefix(seq!['.', '/'], path) {
        path.skip(2)
    } else {
        path
    }
}

/// `stem`, a dot, and `extension`.
pub open spec fn file_name(stem: Seq<char>, extension: Seq<char>) -> Seq<char> {
    stem + seq!['.'] + extension
}

/// Joins `rel` to `base`.
pub fn join(base: &str, rel: &str) -> (r: String)
    ensures
        r@ == joined(base@, rel@),
{
    let n: usize = base.unicode_len();
    if rel.unicode_len() > 0 && rel.get_char(0) == '/' {
        return rel.to_owned();
    }
    let mut out: String = base.to_owned();
    if n > 0 && base.get_char(n - 1) != '/' {
        proof {
            reveal_strlit("/");
            assert("/"@ =~= seq!['/']);
        }
        out.append("/");
    }
    out.append(rel);
    out
}

/// Drops a leading `./` from `path`.
pub fn strip_here(path: &str) -> (r: String)
    ensures
        r@ == from_here(path@),
{
    proof {
        reveal_strlit("./");
        assert("./"@ =~= seq!['.', '/']);
    }
    if starts_with(path, "./") {
        let n: usize = path.unicode_len();
        path.substring_char(2, n).to_owned()
    } else {
        path.to_owned()
    }
}

/// The name of a file from its stem and its extension.
pub fn name_file(stem: &str, extension: &str) -> (r: String)
    ensures
        r@ == file_name(stem@, extension@),
{
    let mut out: String = stem.to_owned();
    proof {
        reveal_strlit(".");
        assert("."@ =~= seq!['.']);
    }
    out.append(".");
    out.append(extension);
    out
}

} // verus!
