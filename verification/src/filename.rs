//! Filename derivation: stripping the site marker from a page title,
//! replacing characters that cannot stand in a filename, falling back to a
//! generic name for short titles, and the `.pending` staging-name
//! convention that marks an in-progress download.

use vstd::prelude::*;

use crate::text::{chars_of, matches_at, occurs_at, string_of_chars, trim_chars, trim_seq};
use vstd::string::StringExecFns;

verus! {

/// Characters that may not stand in a filename.
pub open spec fn forbidden_char(c: char) -> bool {
    c == '<' || c == '>' || c == ':' || c == '"' || c == '/' || c == '\\' || c == '|' || c == '?'
        || c == '*'
}

/// Image of one character after sanitization.
pub open spec fn sanitize_char(c: char) -> char {
    if forbidden_char(c) {
        '_'
    } else {
        c
    }
}

/// `s` with every occurrence of `pat` removed, scanning left to right
/// without overlap.
pub open spec fn remove_all(s: Seq<char>, pat: Seq<char>) -> Seq<char>
    decreases s.len(),
{
    if pat.len() == 0 || s.len() == 0 {
        s
    } else if occurs_at(s, pat, 0) {
        remove_all(s.skip(pat.len() as int), pat)
    } else {
        seq![s[0]] + remove_all(s.skip(1), pat)
    }
}

/// The longest prefix of `s` of at most `n` characters.
pub open spec fn cap_len(s: Seq<char>, n: int) -> Seq<char> {
    if s.len() <= n {
        s
    } else {
        s.take(n)
    }
}

/// The filename derived from a page title: the site marker removed, the
/// result trimmed, a title of fewer than three characters replaced by a
/// generic name built from the vault identifier, forbidden characters
/// replaced by underscores, and the result capped at 200 characters.
pub open spec fn spec_sanitize_filename(title: Seq<char>, vault_id: Seq<char>) -> Seq<char> {
    let stripped = trim_seq(
        remove_all(remove_all(title, "Vimm's Lair - "@), "Vimm's Lair"@),
    );
    let base = if stripped.len() < 3 {
        "item_"@ + vault_id
    } else {
        stripped
    };
    cap_len(base.map_values(|c: char| sanitize_char(c)), 200)
}

/// The staging name for an archive name: the `.pending` suffix appended.
pub open spec fn spec_pending_name(name: Seq<char>) -> Seq<char> {
    name + ".pending"@
}

/// The part of `s` after the last occurrence of `c`; all of `s` when `c`
/// does not occur.
pub open spec fn after_last(s: Seq<char>, c: char) -> Seq<char>
    decreases s.len(),
{
    if s.len() == 0 {
        s
    } else if s[s.len() - 1] == c {
        Seq::empty()
    } else {
        after_last(s.take(s.len() - 1), c) + seq![s[s.len() - 1]]
    }
}

/// `v` with every occurrence of `pat` removed, left to right.
pub fn remove_all_chars(v: &Vec<char>, pat: &Vec<char>) -> (r: Vec<char>)
    requires
        pat@.len() > 0,
    ensures
        r@ == remove_all(v@, pat@),
{
    let n = v.len();
    let mut out: Vec<char> = Vec::new();
    let mut i: usize = 0;
    proof {
        assert(v@.skip(0) =~= v@);
    }
    while i < n
        invariant
            n == v@.len(),
            pat@.len() > 0,
            i <= n,
            remove_all(v@, pat@) == out@ + remove_all(v@.skip(i as int), pat@),
        decreases n - i,
    {
        if pat.len() <= n - i && matches_at(v, pat, i) {
            proof {
                assert(v@.skip(i as int).subrange(0, pat@.len() as int)
                    =~= v@.subrange(i as int, i + pat@.len()));
                assert(occurs_at(v@.skip(i as int), pat@, 0));
                assert(v@.skip(i as int).skip(pat@.len() as int) =~= v@.skip(i + pat@.len()));
            }
            i = i + pat.len();
        } else {
            proof {
                if i + pat@.len() <= n {
                    assert(v@.skip(i as int).subrange(0, pat@.len() as int)
                        =~= v@.subrange(i as int, i + pat@.len()));
                }
                assert(!occurs_at(v@.skip(i as int), pat@, 0));
                assert(v@.skip(i as int).skip(1) =~= v@.skip(i + 1));
                assert(v@.skip(i as int)[0] == v@[i as int]);
            }
            out.push(v[i]);
            proof {
                assert(out@ + remove_all(v@.skip(i + 1), pat@)
                    =~= out@.drop_last() + (seq![v@[i as int]] + remove_all(v@.skip(i + 1), pat@)));
            }
            i = i + 1;
        }
    }
    proof {
        assert(v@.skip(n as int) =~= Seq::<char>::empty());
        assert(out@ + remove_all(v@.skip(n as int), pat@) =~= out@);
    }
    out
}

/// The filename for a page title and vault identifier.
pub fn sanitize_filename(title: &str, vault_id: &str) -> (r: String)
    ensures
        r@ == spec_sanitize_filename(title@, vault_id@),
{
    let tv = chars_of(title);
    let pat1 = chars_of("Vimm's Lair - ");
    let pat2 = chars_of("Vimm's Lair");
    proof {
        reveal_strlit("Vimm's Lair - ");
        reveal_strlit("Vimm's Lair");
    }
    let stripped = trim_chars(&remove_all_chars(&remove_all_chars(&tv, &pat1), &pat2));
    let base: Vec<char> = if stripped.len() < 3 {
        let mut b = chars_of("item_");
        let idv = chars_of(vault_id);
        let mut k: usize = 0;
        while k < idv.len()
            invariant
                k <= idv@.len(),
                b@ == "item_"@ + idv@.take(k as int),
            decreases idv@.len() - k,
        {
            b.push(idv[k]);
            k = k + 1;
            proof {
                assert("item_"@ + idv@.take(k as int)
                    =~= ("item_"@ + idv@.take(k - 1)).push(idv@[k - 1]));
            }
        }
        proof {
            assert(idv@.take(idv@.len() as int) =~= idv@);
        }
        b
    } else {
        stripped
    };
    let limit = if base.len() <= 200 {
        base.len()
    } else {
        200
    };
    let mut out: Vec<char> = Vec::new();
    let mut i: usize = 0;
    while i < limit
        invariant
            limit <= base@.len(),
            i <= limit,
            out@ == base@.map_values(|c: char| sanitize_char(c)).take(i as int),
        decreases limit - i,
    {
        let c = base[i];
        let s = if c == '<' || c == '>' || c == ':' || c == '"' || c == '/' || c == '\\'
            || c == '|' || c == '?' || c == '*' {
            '_'
        } else {
            c
        };
        out.push(s);
        i = i + 1;
        proof {
            let m = base@.map_values(|c: char| sanitize_char(c));
            assert(m.take(i as int) =~= m.take(i - 1).push(m[i - 1]));
        }
    }
    proof {
        let m = base@.map_values(|c: char| sanitize_char(c));
        assert(cap_len(m, 200) =~= m.take(limit as int));
    }
    string_of_chars(&out)
}

/// The staging name: the archive name with `.pending` appended.
pub fn pending_name(name: &str) -> (r: String)
    ensures
        r@ == spec_pending_name(name@),
{
    let mut r = name.to_owned();
    r.append(".pending");
    r
}

/// The part of `url` after the last slash, used as the vault identifier.
pub fn after_last_slash(url: &str) -> (r: String)
    ensures
        r@ == after_last(url@, '/'),
{
    let v = chars_of(url);
    let n = v.len();
    let mut cut: usize = n;
    loop
        invariant
            n == v@.len(),
            cut <= n,
            forall|j: int| cut <= j < n ==> v@[j] != '/',
        ensures
            cut == 0 ==> forall|j: int| 0 <= j < n ==> v@[j] != '/',
            cut > 0 ==> cut <= n && v@[cut - 1] == '/' && forall|j: int| cut <= j < n ==> v@[j]
                != '/',
        decreases cut,
    {
        if cut == 0 {
            break;
        }
        if v[cut - 1] == '/' {
            break;
        }
        cut = cut - 1;
    }
    let start = cut;
    proof {
        if start > 0 {
            lemma_after_last_found(v@, '/', start - 1);
        } else {
            lemma_after_last_absent(v@, '/');
            assert(v@.skip(0) =~= v@);
        }
    }
    let mut out: Vec<char> = Vec::new();
    let mut i: usize = start;
    while i < n
        invariant
            start <= i <= n,
            n == v@.len(),
            out@ == v@.skip(start as int).take(i - start),
        decreases n - i,
    {
        out.push(v[i]);
        i = i + 1;
        proof {
            assert(v@.skip(start as int).take(i - start)
                =~= v@.skip(start as int).take(i - 1 - start).push(v@[i - 1]));
        }
    }
    proof {
        assert(v@.skip(start as int).take(n - start) =~= v@.skip(start as int));
    }
    string_of_chars(&out)
}

/// When `s[p] == c` and no `c` follows, the part after the last `c` is the
/// suffix beyond `p`.
proof fn lemma_after_last_found(s: Seq<char>, c: char, p: int)
    requires
        0 <= p < s.len(),
        s[p] == c,
        forall|j: int| p < j < s.len() ==> s[j] != c,
    ensures
        after_last(s, c) == s.skip(p + 1),
    decreases s.len(),
{
    if p == s.len() - 1 {
        assert(s.skip(p + 1) =~= Seq::<char>::empty());
    } else {
        lemma_after_last_found(s.take(s.len() - 1), c, p);
        assert(s.take(s.len() - 1).skip(p + 1) + seq![s[s.len() - 1]] =~= s.skip(p + 1));
    }
}

/// When `c` does not occur in `s`, the part after the last `c` is `s`.
proof fn lemma_after_last_absent(s: Seq<char>, c: char)
    requires
        forall|j: int| 0 <= j < s.len() ==> s[j] != c,
    ensures
        after_last(s, c) == s,
    decreases s.len(),
{
    if s.len() > 0 {
        lemma_after_last_absent(s.take(s.len() - 1), c);
        assert(s.take(s.len() - 1) + seq![s[s.len() - 1]] =~= s);
    }
}

/// A staging name is never the name it was derived from: the `.pending`
/// suffix always lengthens it.
pub proof fn lemma_pending_name_differs(name: Seq<char>)
    ensures
        spec_pending_name(name) != name,
        spec_pending_name(name).len() == name.len() + 8,
{
    reveal_strlit(".pending");
}

} // verus!
