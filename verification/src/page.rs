//! The metadata extractor: turns a catalog page's markup into a
//! `DownloadTarget` — download endpoint, media identifier, expected
//! checksum and target filename — or a structured failure when the page
//! lacks the download form or the checksum element.  The HTML parser is
//! an outside library behind trusted wrappers; selecting the right form
//! and assembling the target are verified.

use vstd::prelude::*;

use crate::filename::{after_last, after_last_slash, sanitize_filename, spec_sanitize_filename};
use crate::text::{chars_of, contains_pat, contains_seq, lower_chars, lower_seq, string_of_chars,
    trim_chars, trim_seq};
use vstd::string::StringExecFns;

verus! {

/// Everything one catalog page says about one item.  Immutable once
/// extracted: the expected checksum and the filename never change during
/// one processing attempt.
#[derive(Debug)]
pub struct DownloadTarget {
    /// The download endpoint the form posts to, as an absolute URL.
    pub download_url: String,
    /// The media identifier the endpoint expects as a query parameter.
    pub media_id: String,
    /// The checksum published on the page, trimmed and lower-cased.
    pub expected_crc: String,
    /// The payload filename derived from the page title.
    pub filename: String,
}

/// Why a page yielded no target.  Either failure is final for the page:
/// a malformed page does not warrant a retry.
#[derive(Clone, Copy, PartialEq, Eq, Structural, Debug)]
pub enum PageError {
    /// No form with a plausible action and a media-identifier field.
    MissingDownloadForm,
    /// No checksum element on the page.
    MissingChecksum,
}

/// For each form element of the page, in document order: its action
/// attribute, and the value of its first media-identifier input.  The
/// result depends on the markup alone.
pub uninterp spec fn forms_of(html: Seq<char>) -> Seq<(Option<Seq<char>>, Option<Seq<char>>)>;

/// The first text node of the span with the given id, if the page has
/// one.  The result depends on the markup and the id alone.
pub uninterp spec fn span_text_of(html: Seq<char>, id: Seq<char>) -> Option<Seq<char>>;

/// The text of the page's title element, if the page has one.  The
/// result depends on the markup alone.
pub uninterp spec fn title_of(html: Seq<char>) -> Option<Seq<char>>;

/// Relies on scraper's `Html::parse_document` and CSS selection: lists
/// every `form` element with its `action` attribute and the `value` of
/// its first `input[name='mediaId']` descendant, in document order.
#[verifier::external_body]
fn page_forms(html: &str) -> (r: Vec<(Option<String>, Option<String>)>)
    ensures
        r.deep_view() == forms_of(html@),
{
    let document = scraper::Html::parse_document(html);
    let form_sel = scraper::Selector::parse("form").unwrap();
    let input_sel = scraper::Selector::parse("input[name='mediaId']").unwrap();
    let mut out: Vec<(Option<String>, Option<String>)> = Vec::new();
    for form in document.select(&form_sel) {
        let action = form.value().attr("action").map(|s| s.to_string());
        let media = form
            .select(&input_sel)
            .next()
            .and_then(|input| input.value().attr("value"))
            .map(|s| s.to_string());
        out.push((action, media));
    }
    out
}

/// Relies on scraper's `Html::parse_document` and CSS selection: the
/// first text node of the span with the given id; `None` when the page
/// has no such span or the id makes no valid selector.
#[verifier::external_body]
fn span_text(html: &str, span_id: &str) -> (r: Option<String>)
    ensures
        r.deep_view() == span_text_of(html@, span_id@),
{
    let selector = match scraper::Selector::parse(&format!("span#{}", span_id)) {
        Ok(s) => s,
        Err(_) => return None,
    };
    let document = scraper::Html::parse_document(html);
    document
        .select(&selector)
        .next()
        .and_then(|el| el.text().next())
        .map(|s| s.to_string())
}

/// Relies on scraper's `Html::parse_document` and CSS selection: the
/// concatenated text of the page's `title` element.
#[verifier::external_body]
fn page_title(html: &str) -> (r: Option<String>)
    ensures
        r.deep_view() == title_of(html@),
{
    let selector = scraper::Selector::parse("title").unwrap();
    let document = scraper::Html::parse_document(html);
    document
        .select(&selector)
        .next()
        .map(|el| el.text().collect::<String>())
}

/// A form that can drive a download: it has an action that mentions the
/// download path or the site host, and a media identifier.
pub open spec fn form_qualifies(f: (Option<Seq<char>>, Option<Seq<char>>)) -> bool {
    &&& f.0 is Some
    &&& f.1 is Some
    &&& (contains_seq(f.0->0, "dl"@) || contains_seq(f.0->0, "vimm.net"@))
}

/// The action and media identifier of the first qualifying form.
pub open spec fn first_form(forms: Seq<(Option<Seq<char>>, Option<Seq<char>>)>) -> Option<
    (Seq<char>, Seq<char>),
>
    decreases forms.len(),
{
    if forms.len() == 0 {
        None
    } else if form_qualifies(forms[0]) {
        Some((forms[0].0->0, forms[0].1->0))
    } else {
        first_form(forms.skip(1))
    }
}

/// The form action made absolute: protocol-relative actions get a
/// protocol, absolute URLs stand, anything else is rooted at the site.
pub open spec fn spec_build_url(action: Seq<char>) -> Seq<char> {
    if action.len() >= 2 && action.take(2) == "//"@ {
        "https:"@ + action
    } else if action.len() >= 4 && action.take(4) == "http"@ {
        action
    } else {
        "https://vimm.net"@ + action
    }
}

/// The absolute download URL for a form action.
fn build_download_url(action: &str) -> (r: String)
    ensures
        r@ == spec_build_url(action@),
{
    let v = chars_of(action);
    proof {
        reveal_strlit("//");
        reveal_strlit("http");
    }
    if v.len() >= 2 && v[0] == '/' && v[1] == '/' {
        proof {
            assert(action@.take(2) =~= "//"@);
        }
        let mut r = "https:".to_owned();
        r.append(action);
        r
    } else if v.len() >= 4 && v[0] == 'h' && v[1] == 't' && v[2] == 't' && v[3] == 'p' {
        proof {
            assert(action@.take(4) =~= "http"@);
            if action@.len() >= 2 && action@.take(2) == "//"@ {
                assert(action@.take(2)[0] == '/');
                assert(false);
            }
        }
        action.to_owned()
    } else {
        proof {
            if action@.len() >= 2 && action@.take(2) == "//"@ {
                assert(action@.take(2)[0] == '/');
                assert(action@.take(2)[1] == '/');
                assert(action@[0] == '/' && action@[1] == '/');
            }
            if action@.len() >= 4 && action@.take(4) == "http"@ {
                assert(action@.take(4)[0] == 'h');
                assert(action@.take(4)[1] == 't');
                assert(action@.take(4)[2] == 't');
                assert(action@.take(4)[3] == 'p');
                assert(action@[0] == 'h' && action@[1] == 't' && action@[2] == 't' && action@[3]
                    == 'p');
            }
        }
        let mut r = "https://vimm.net".to_owned();
        r.append(action);
        r
    }
}

/// The download URL and media identifier of the first qualifying form.
pub fn find_download_link(forms: &Vec<(Option<String>, Option<String>)>) -> (r: Result<
    (String, String),
    PageError,
>)
    ensures
        match first_form(forms.deep_view()) {
            Some(am) => r is Ok && r->Ok_0.0@ == spec_build_url(am.0) && r->Ok_0.1@ == am.1,
            None => r == Err::<(String, String), PageError>(PageError::MissingDownloadForm),
        },
{
    let ghost dv = forms.deep_view();
    let pat_dl = chars_of("dl");
    let pat_host = chars_of("vimm.net");
    let n = forms.len();
    proof {
        assert(dv.skip(0) =~= dv);
    }
    let mut i: usize = 0;
    while i < n
        invariant
            n == forms@.len(),
            dv == forms.deep_view(),
            i <= n,
            pat_dl@ == "dl"@,
            pat_host@ == "vimm.net"@,
            first_form(dv) == first_form(dv.skip(i as int)),
        decreases n - i,
    {
        proof {
            assert(dv.len() == forms@.len());
            assert(dv.skip(i as int)[0] == dv[i as int]);
            assert(dv[i as int] == forms@[i as int].deep_view());
            assert(dv.skip(i as int).skip(1) =~= dv.skip(i + 1));
        }
        let f = &forms[i];
        match (&f.0, &f.1) {
            (Some(action), Some(media)) => {
                let av = chars_of(action.as_str());
                if contains_pat(&av, &pat_dl) || contains_pat(&av, &pat_host) {
                    proof {
                        assert(form_qualifies(dv[i as int]));
                        assert(first_form(dv.skip(i as int))
                            == Some((dv[i as int].0->0, dv[i as int].1->0)));
                    }
                    let url = build_download_url(action.as_str());
                    return Ok((url, media.clone()));
                }
                proof {
                    assert(!form_qualifies(dv[i as int]));
                }
            },
            _ => {
                proof {
                    assert(!form_qualifies(dv[i as int]));
                }
            },
        }
        i = i + 1;
    }
    proof {
        assert(dv.skip(n as int) =~= Seq::<(Option<Seq<char>>, Option<Seq<char>>)>::empty());
    }
    Err(PageError::MissingDownloadForm)
}

/// The text of the given span, trimmed and lower-cased — the form in
/// which the page publishes the expected checksum.  Lower-casing folds
/// ASCII letters only, which covers the hex digits a checksum holds;
/// trimming removes the full Unicode white-space class.
pub fn extract_hash(html: &str, span_id: &str) -> (r: Option<String>)
    ensures
        match span_text_of(html@, span_id@) {
            Some(h) => r is Some && r->0@ == lower_seq(trim_seq(h)),
            None => r is None,
        },
{
    let raw = span_text(html, span_id);
    match raw {
        Some(t) => {
            let v = chars_of(t.as_str());
            Some(string_of_chars(&lower_chars(&trim_chars(&v))))
        },
        None => None,
    }
}

/// The page title used for naming, with the fallback the original used
/// when the page has no title element.
pub open spec fn title_or_default(t: Option<Seq<char>>) -> Seq<char> {
    match t {
        Some(s) => s,
        None => "download"@,
    }
}

/// Everything the controller needs, read off one catalog page.
///
/// Fails with `MissingDownloadForm` when no form qualifies, then with
/// `MissingChecksum` when the checksum span is absent; otherwise the
/// target carries the absolute download URL, the media identifier, the
/// normalized expected checksum, and the sanitized filename derived from
/// the title and the page URL's trailing segment.
pub fn extract_target(html: &str, page_url: &str) -> (r: Result<DownloadTarget, PageError>)
    ensures
        match first_form(forms_of(html@)) {
            None => r == Err::<DownloadTarget, PageError>(PageError::MissingDownloadForm),
            Some(am) => match span_text_of(html@, "data-crc"@) {
                None => r == Err::<DownloadTarget, PageError>(PageError::MissingChecksum),
                Some(h) => {
                    &&& r is Ok
                    &&& r->Ok_0.download_url@ == spec_build_url(am.0)
                    &&& r->Ok_0.media_id@ == am.1
                    &&& r->Ok_0.expected_crc@ == lower_seq(trim_seq(h))
                    &&& r->Ok_0.filename@ == spec_sanitize_filename(
                        title_or_default(title_of(html@)),
                        after_last(page_url@, '/'),
                    )
                },
            },
        },
{
    let forms = page_forms(html);
    let link = find_download_link(&forms);
    match link {
        Err(e) => Err(e),
        Ok((download_url, media_id)) => {
            let hash = extract_hash(html, "data-crc");
            match hash {
                None => Err(PageError::MissingChecksum),
                Some(expected_crc) => {
                    let vault_id = after_last_slash(page_url);
                    let title = page_title(html);
                    let filename = match title {
                        Some(t) => sanitize_filename(t.as_str(), vault_id.as_str()),
                        None => sanitize_filename("download", vault_id.as_str()),
                    };
                    Ok(DownloadTarget { download_url, media_id, expected_crc, filename })
                },
            }
        },
    }
}

} // verus!
