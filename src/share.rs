use vstd::prelude::*;
use vstd::string::*;

use crate::normalize::{normalize, normalized};
use crate::render::{render, rendering, Format};
use crate::store::{lookup, put_outcome, EntryView, LinkError, NamespaceStore};

verus! {

/// Longest namespace accepted, in characters after case folding.
pub const MAX_NAMESPACE_LEN: usize = 64;

/// What `str::to_lowercase` gives for a string.
pub uninterp spec fn lower_of(s: Seq<char>) -> Seq<char>;

/// Relies on `str::to_lowercase`: the result depends on the characters alone.
#[verifier::external_body]
fn lowercase(s: &str) -> (r: String)
    ensures
        r@ == lower_of(s@),
{
    s.to_lowercase()
}

/// The query of a share request.
pub struct Params {
    pub url: Option<String>,
}

/// What a successful share reports: the key of the URL in its namespace, and whether
/// this share created the entry.
pub struct ShareResult {
    pub key: String,
    pub created: bool,
}

/// The namespace under which `table` is stored: its lower-case form, when that is
/// non-empty and at most `MAX_NAMESPACE_LEN` characters long.
pub open spec fn namespace_of(table: Seq<char>) -> Option<Seq<char>> {
    let l = lower_of(table);
    if 0 < l.len() <= MAX_NAMESPACE_LEN {
        Some(l)
    } else {
        None
    }
}

/// What a share returns, and the entries after it.
pub open spec fn share_outcome(
    s: Seq<EntryView>,
    table: Seq<char>,
    url: Option<Seq<char>>,
    now: u64,
) -> (Result<(Seq<char>, bool), LinkError>, Seq<EntryView>) {
    match namespace_of(table) {
        None => (Err(LinkError::InvalidNamespace), s),
        Some(ns) => match url {
            None => (Err(LinkError::MissingUrl), s),
            Some(u) => {
                if u.len() == 0 {
                    (Err(LinkError::MissingUrl), s)
                } else {
                    match normalized(u) {
                        None => (Err(LinkError::InvalidUrl), s),
                        Some(t) => put_outcome(s, ns, t, now),
                    }
                }
            },
        },
    }
}

/// What a show returns.
pub open spec fn show_outcome(
    s: Seq<EntryView>,
    table: Seq<char>,
    key: Seq<char>,
    format: Format,
) -> Result<Seq<char>, LinkError> {
    match namespace_of(table) {
        None => Err(LinkError::NotFound),
        Some(ns) => match lookup(s, ns, key) {
            None => Err(LinkError::NotFound),
            Some(e) => Ok(rendering(e, format)),
        },
    }
}

pub open spec fn params_url(p: &Params) -> Option<Seq<char>> {
    match &p.url {
        Some(u) => Some(u@),
        None => None,
    }
}

pub open spec fn share_result_view(r: Result<ShareResult, LinkError>) -> Result<
    (Seq<char>, bool),
    LinkError,
> {
    match r {
        Ok(s) => Ok((s.key@, s.created)),
        Err(e) => Err(e),
    }
}

/// Case-folds and checks a namespace name.
pub fn namespace_key(table: &str) -> (r: Option<String>)
    ensures
        r matches Some(n) ==> namespace_of(table@) == Some(n@),
        r is None <==> namespace_of(table@) is None,
{
    let l = lowercase(table);
    let n = l.as_str().unicode_len();
    if n == 0 || n > MAX_NAMESPACE_LEN {
        None
    } else {
        Some(l)
    }
}

/// Shares the URL of `params` in namespace `table`: checks the namespace
/// (`InvalidNamespace`), requires a non-empty URL (`MissingUrl`), normalizes it
/// (`InvalidUrl`), then stores it unless already there, stamped `now`.
pub fn share_url(store: &mut NamespaceStore, table: &str, params: &Params, now: u64) -> (r: Result<
    ShareResult,
    LinkError,
>)
    requires
        old(store).wf(),
    ensures
        final(store).wf(),
        (share_result_view(r), final(store)@) == share_outcome(
            old(store)@,
            table@,
            params_url(params),
            now,
        ),
{
    let ns = match namespace_key(table) {
        Some(n) => n,
        None => return Err(LinkError::InvalidNamespace),
    };
    let raw = match &params.url {
        Some(u) => u,
        None => return Err(LinkError::MissingUrl),
    };
    if raw.as_str().unicode_len() == 0 {
        return Err(LinkError::MissingUrl);
    }
    let target = match normalize(raw.as_str()) {
        Some(t) => t,
        None => return Err(LinkError::InvalidUrl),
    };
    match store.put_if_absent(ns.as_str(), &target, now) {
        Ok((key, created)) => Ok(ShareResult { key, created }),
        Err(e) => Err(e),
    }
}

/// Looks up `key` in namespace `table` and renders the entry; `NotFound` when the
/// namespace is not a valid one or holds no such key.
pub fn show(store: &NamespaceStore, table: &str, key: &str, format: Format) -> (r: Result<
    String,
    LinkError,
>)
    requires
        store.wf(),
    ensures
        match r {
            Ok(t) => show_outcome(store@, table@, key@, format) == Ok::<Seq<char>, LinkError>(t@),
            Err(e) => show_outcome(store@, table@, key@, format) == Err::<Seq<char>, LinkError>(e),
        },
{
    let ns = match namespace_key(table) {
        Some(n) => n,
        None => return Err(LinkError::NotFound),
    };
    match store.get(ns.as_str(), key) {
        Ok(e) => Ok(render(&e, format)),
        Err(e) => Err(e),
    }
}

} // verus!
