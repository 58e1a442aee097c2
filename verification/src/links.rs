//! Decisions about the link list: which lines of the input file count as
//! links, and which links belong to the vault site at all.  Reading the
//! file and splitting it into lines stays outside the library; each
//! line's fate is decided here.

use vstd::prelude::*;

use crate::text::{chars_of, contains_pat, contains_seq, string_of_chars, trim_chars, trim_seq};

verus! {

/// The trimmed line when it names a link: blank lines and lines whose
/// first character is `#` are ignored.
pub open spec fn spec_link_line(line: Seq<char>) -> Option<Seq<char>> {
    let t = trim_seq(line);
    if t.len() > 0 && t[0] != '#' {
        Some(t)
    } else {
        None
    }
}

/// The link a line of the input file names, if it names one.
pub fn link_of_line(line: &str) -> (r: Option<String>)
    ensures
        match spec_link_line(line@) {
            Some(t) => r is Some && r->0@ == t,
            None => r is None,
        },
{
    let v = chars_of(line);
    let t = trim_chars(&v);
    if t.len() > 0 {
        let c = t[0];
        if c != '#' {
            return Some(string_of_chars(&t));
        }
    }
    None
}

/// Whether a link points into the vault: it mentions the vault path on
/// the site's host.
pub fn is_vault_url(url: &str) -> (r: bool)
    ensures
        r == contains_seq(url@, "vimm.net/vault/"@),
{
    let v = chars_of(url);
    let pat = chars_of("vimm.net/vault/");
    contains_pat(&v, &pat)
}

} // verus!
