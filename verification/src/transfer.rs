//! Transfer bookkeeping: the request URL for a download endpoint, HTTP
//! status classification, the authoritative filename carried by a
//! content-disposition header, and byte-progress accounting.  The network
//! itself stays outside the library; these functions decide what the
//! transfer loop does with what came back.

use vstd::prelude::*;

use crate::text::{chars_of, find_sub, find_pat, string_of_chars};
use vstd::string::StringExecFns;

verus! {

/// A successful HTTP status: the 2xx class.
pub open spec fn spec_is_success_status(code: u16) -> bool {
    200 <= code < 300
}

/// Whether an HTTP status code reports success.
pub fn is_success_status(code: u16) -> (r: bool)
    ensures
        r == spec_is_success_status(code),
{
    200 <= code && code < 300
}

/// The download endpoint with the media identifier as a query parameter.
pub fn download_request_url(endpoint: &str, media_id: &str) -> (r: String)
    ensures
        r@ == endpoint@ + "?mediaId="@ + media_id@,
{
    let mut r = endpoint.to_owned();
    r.append("?mediaId=");
    r.append(media_id);
    r
}

/// `s` with leading double quotes removed.
pub open spec fn trim_quote_start(s: Seq<char>) -> Seq<char>
    decreases s.len(),
{
    if s.len() > 0 && s[0] == '"' {
        trim_quote_start(s.skip(1))
    } else {
        s
    }
}

/// `s` with trailing double quotes removed.
pub open spec fn trim_quote_end(s: Seq<char>) -> Seq<char>
    decreases s.len(),
{
    if s.len() > 0 && s[s.len() - 1] == '"' {
        trim_quote_end(s.take(s.len() - 1))
    } else {
        s
    }
}

/// `s` with double quotes removed on both sides.
pub open spec fn trim_quotes(s: Seq<char>) -> Seq<char> {
    trim_quote_end(trim_quote_start(s))
}

/// The filename that a content-disposition header carries: the text after
/// the first `filename=`, up to the next `filename=` if one follows, with
/// surrounding quotes removed; the fallback name when the header carries
/// none.
pub open spec fn spec_disposition_filename(disp: Seq<char>, fallback: Seq<char>) -> Seq<char> {
    let pat = "filename="@;
    match find_sub(disp, pat) {
        None => fallback,
        Some(i) => {
            let rest = disp.skip(i + pat.len());
            let part = match find_sub(rest, pat) {
                Some(j) => rest.take(j),
                None => rest,
            };
            trim_quotes(part)
        },
    }
}

/// `v` with double quotes removed on both sides.
fn trim_quote_chars(v: &Vec<char>) -> (r: Vec<char>)
    ensures
        r@ == trim_quotes(v@),
{
    proof {
        assert(v@.skip(0) =~= v@);
    }
    let mut start: usize = 0;
    while start < v.len() && v[start] == '"'
        invariant
            start <= v@.len(),
            trim_quote_start(v@) == trim_quote_start(v@.skip(start as int)),
        decreases v@.len() - start,
    {
        proof {
            assert(v@.skip(start as int).skip(1) =~= v@.skip(start + 1));
        }
        start = start + 1;
    }
    proof {
        assert(trim_quote_start(v@.skip(start as int)) == v@.skip(start as int));
    }
    let mut end: usize = v.len();
    proof {
        assert(v@.skip(start as int).take(end - start) =~= v@.skip(start as int));
    }
    while end > start && v[end - 1] == '"'
        invariant
            start <= end <= v@.len(),
            trim_quote_start(v@) == v@.skip(start as int),
            trim_quote_end(v@.skip(start as int)) == trim_quote_end(
                v@.skip(start as int).take(end - start),
            ),
        decreases end,
    {
        proof {
            let cur = v@.skip(start as int).take(end - start);
            assert(cur.take(cur.len() - 1) =~= v@.skip(start as int).take(end - 1 - start));
            assert(cur[cur.len() - 1] == v@[end - 1]);
        }
        end = end - 1;
    }
    proof {
        let cur = v@.skip(start as int).take(end - start);
        if end > start {
            assert(cur[cur.len() - 1] == v@[end - 1]);
        }
        assert(trim_quote_end(cur) == cur);
    }
    let mut r: Vec<char> = Vec::new();
    let mut i: usize = start;
    while i < end
        invariant
            start <= i <= end <= v@.len(),
            r@ == v@.skip(start as int).take(i - start),
        decreases end - i,
    {
        r.push(v[i]);
        i = i + 1;
        proof {
            assert(v@.skip(start as int).take(i - start)
                =~= v@.skip(start as int).take(i - 1 - start).push(v@[i - 1]));
        }
    }
    r
}

/// The filename to publish under, given the content-disposition header
/// value (when the response carried one) and the page-derived fallback.
pub fn filename_from_disposition(disp: &str, fallback: &str) -> (r: String)
    ensures
        r@ == spec_disposition_filename(disp@, fallback@),
{
    let v = chars_of(disp);
    let pat = chars_of("filename=");
    proof {
        reveal_strlit("filename=");
    }
    match find_pat(&v, &pat) {
        None => fallback.to_owned(),
        Some(i) => {
            let n = v.len();
            let cut = i + pat.len();
            let mut rest: Vec<char> = Vec::new();
            let mut k: usize = cut;
            while k < n
                invariant
                    cut <= k <= n,
                    n == v@.len(),
                    rest@ == v@.skip(cut as int).take(k - cut),
                decreases n - k,
            {
                rest.push(v[k]);
                k = k + 1;
                proof {
                    assert(v@.skip(cut as int).take(k - cut)
                        =~= v@.skip(cut as int).take(k - 1 - cut).push(v@[k - 1]));
                }
            }
            proof {
                assert(v@.skip(cut as int).take(n - cut) =~= v@.skip(cut as int));
            }
            let part: Vec<char> = match find_pat(&rest, &pat) {
                Some(j) => {
                    let mut p: Vec<char> = Vec::new();
                    let mut t: usize = 0;
                    while t < j
                        invariant
                            t <= j <= rest@.len(),
                            p@ == rest@.take(t as int),
                        decreases j - t,
                    {
                        p.push(rest[t]);
                        t = t + 1;
                        proof {
                            assert(rest@.take(t as int)
                                =~= rest@.take(t - 1).push(rest@[t - 1]));
                        }
                    }
                    p
                },
                None => rest,
            };
            string_of_chars(&trim_quote_chars(&part))
        },
    }
}

/// Progress accounting for one read: the running byte total after another
/// chunk has been written to the staging file.
pub fn record_progress(total: u64, chunk: u64) -> (r: u64)
    requires
        total + chunk <= u64::MAX,
    ensures
        r == total + chunk,
{
    total + chunk
}

} // verus!
