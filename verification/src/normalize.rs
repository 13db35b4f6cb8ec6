//! Parsing and normalising candidate URLs. The parser itself is the `url`
//! crate's; the library reads two things from a parsed URL: its normal form
//! and its host.

use vstd::prelude::*;

verus! {

/// What the queue reads from a URL that parsed.
pub struct ParsedUrl {
    /// The URL in its normal form: absolute, as the parser serialises it.
    pub url: String,
    /// The host, where the URL has one.
    pub host: Option<String>,
}

/// A parsed URL as plain text.
pub struct UrlView {
    pub url: Seq<char>,
    pub host: Option<Seq<char>>,
}

impl View for ParsedUrl {
    type V = UrlView;

    open spec fn view(&self) -> UrlView {
        UrlView {
            url: self.url@,
            host: match self.host {
                Some(h) => Some(h@),
                None => None,
            },
        }
    }
}

/// The plain-text form of a parse result.
pub open spec fn parse_view(parsed: Option<ParsedUrl>) -> Option<UrlView> {
    match parsed {
        Some(p) => Some(p@),
        None => None,
    }
}

/// What `url::Url::parse` makes of `raw`: `None` where it reports an error,
/// else the serialisation and the host of the URL it returns.
pub uninterp spec fn parsed_url(raw: Seq<char>) -> Option<UrlView>;

/// The parse results of a batch of raw URLs, one for one.
pub open spec fn parsed_all(raws: Seq<String>) -> Seq<Option<UrlView>> {
    Seq::new(raws.len(), |i: int| parsed_url(raws[i]@))
}

/// Calls `url::Url::parse` and reads `as_str` and `host_str` from the URL it
/// returns. The parser is deterministic, so its result is given the name
/// `parsed_url`; nothing else is claimed of it.
#[verifier::external_body]
fn parse(raw: &str) -> (res: Option<ParsedUrl>)
    ensures
        parse_view(res) == parsed_url(raw@),
{
    match url::Url::parse(raw) {
        Ok(u) => Some(
            ParsedUrl { url: u.as_str().to_string(), host: u.host_str().map(|h| h.to_string()) },
        ),
        Err(_) => None,
    }
}

/// Parses one candidate URL. `None` stands for a malformed one.
pub fn normalize(raw: &str) -> (res: Option<ParsedUrl>)
    ensures
        parse_view(res) == parsed_url(raw@),
{
    parse(raw)
}

/// Parses a batch of candidate URLs, one for one.
pub fn normalize_all(raws: &Vec<String>) -> (res: Vec<Option<ParsedUrl>>)
    ensures
        res@.len() == raws@.len(),
        forall|i: int| 0 <= i < raws@.len() ==> parse_view(#[trigger] res@[i]) == parsed_url(raws@[i]@),
{
    let mut out: Vec<Option<ParsedUrl>> = Vec::new();
    let mut i: usize = 0;
    while i < raws.len()
        invariant
            i <= raws.len(),
            out@.len() == i,
            forall|j: int| 0 <= j < i ==> parse_view(#[trigger] out@[j]) == parsed_url(raws@[j]@),
        decreases raws.len() - i,
    {
        out.push(parse(raws[i].as_str()));
        i += 1;
    }
    out
}

} // verus!
