use vstd::prelude::*;
use vstd::string::*;

use crate::text::same_text;

verus! {

/// What `url::Url::parse` makes of a string, as plain values: `None` when it refuses
/// the string, else the scheme, whether a host is present, the full serialization and
/// the fragment.
pub uninterp spec fn parsed_url(raw: Seq<char>) -> Option<
    (Seq<char>, bool, Seq<char>, Option<Seq<char>>),
>;

/// The parts of a parsed URL that normalization reads.
pub struct UrlParts {
    pub scheme: String,
    pub has_host: bool,
    pub serialization: String,
    pub fragment: Option<String>,
}

impl UrlParts {
    pub open spec fn parts(&self) -> (Seq<char>, bool, Seq<char>, Option<Seq<char>>) {
        (
            self.scheme@,
            self.has_host,
            self.serialization@,
            match self.fragment {
                Some(f) => Some(f@),
                None => None,
            },
        )
    }
}

/// Relies on `url::Url::parse` and the accessors `scheme`, `host_str`, `as_str` and
/// `fragment` of the parsed value. The serialization of a URL with a fragment ends in
/// `#` followed by the fragment (`fragment` slices the serialization after that `#`).
#[verifier::external_body]
fn parse_url(raw: &str) -> (r: Option<UrlParts>)
    ensures
        r is None <==> parsed_url(raw@) is None,
        r matches Some(p) ==> parsed_url(raw@) == Some(p.parts()),
        r matches Some(p) ==> (p.fragment matches Some(f) ==> p.serialization@.len() >= f@.len()
            + 1),
{
    match url::Url::parse(raw) {
        Ok(u) => Some(UrlParts {
            scheme: u.scheme().to_string(),
            has_host: u.host_str().is_some(),
            serialization: u.as_str().to_string(),
            fragment: u.fragment().map(|f| f.to_string()),
        }),
        Err(_) => None,
    }
}

/// A serialization with its fragment (and the `#` before it) cut off.
pub open spec fn without_fragment(ser: Seq<char>, frag: Option<Seq<char>>) -> Seq<char> {
    match frag {
        Some(f) => ser.subrange(0, ser.len() - f.len() - 1),
        None => ser,
    }
}

/// Whether a scheme is one that a shared link may have.
pub open spec fn web_scheme(scheme: Seq<char>) -> bool {
    scheme == "http"@ || scheme == "https"@
}

/// The canonical form of `raw`, or `None` when it is not an absolute http(s) URL.
pub open spec fn normalized(raw: Seq<char>) -> Option<Seq<char>> {
    match parsed_url(raw) {
        Some((scheme, has_host, ser, frag)) => {
            if web_scheme(scheme) && has_host && raw.len() > 0 {
                Some(without_fragment(ser, frag))
            } else {
                None
            }
        },
        None => None,
    }
}

/// A normalized URL: only `normalize` makes one.
pub struct TargetUrl {
    text: String,
}

impl TargetUrl {
    #[verifier::type_invariant]
    spec fn inv(&self) -> bool {
        exists|raw: Seq<char>| normalized(raw) == Some(#[trigger] self.text@)
    }

    pub closed spec fn view(&self) -> Seq<char> {
        self.text@
    }

    pub fn as_str(&self) -> (r: &str)
        ensures
            r@ == self.view(),
            exists|raw: Seq<char>| normalized(raw) == Some(r@),
    {
        proof {
            use_type_invariant(self);
        }
        self.text.as_str()
    }
}

/// Canonicalizes a candidate URL: `None` when it is empty, does not parse, or is not
/// an absolute `http`/`https` URL with a host; else its serialization without fragment.
pub fn normalize(raw: &str) -> (r: Option<TargetUrl>)
    ensures
        r is None <==> normalized(raw@) is None,
        r matches Some(t) ==> normalized(raw@) == Some(t.view()),
{
    if raw.unicode_len() == 0 {
        return None;
    }
    let parts = match parse_url(raw) {
        Some(p) => p,
        None => return None,
    };
    let http = same_text(parts.scheme.as_str(), "http");
    let https = same_text(parts.scheme.as_str(), "https");
    if !(http || https) || !parts.has_host {
        return None;
    }
    let text = match &parts.fragment {
        Some(f) => {
            let end = parts.serialization.unicode_len() - f.unicode_len() - 1;
            parts.serialization.as_str().substring_char(0, end).to_owned()
        },
        None => parts.serialization,
    };
    assert(normalized(raw@) == Some(text@));
    Some(TargetUrl { text })
}

} // verus!
