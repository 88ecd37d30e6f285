use vstd::prelude::*;
use vstd::string::*;

use crate::store::{Entry, EntryView};
use crate::text::{json_escape, markup_escape, push_json_escaped, push_markup_escaped};
use crate::time::{
    iso_timestamp, push_iso_timestamp, push_readable_timestamp, push_rfc822_timestamp,
    readable_timestamp, rfc822_timestamp,
};

verus! {

/// The output formats of an entry.
#[derive(Debug, Clone, Copy, PartialEq, Eq, Structural)]
pub enum Format {
    Json,
    Html,
    Rss,
}

/// The JSON object of an entry.
pub open spec fn json_text(e: EntryView) -> Seq<char> {
    "{\"key\":\""@ + json_escape(e.key) + "\",\"namespace\":\""@ + json_escape(e.namespace)
        + "\",\"target_url\":\""@ + json_escape(e.target_url) + "\",\"created_at\":\""@
        + iso_timestamp(e.created_at) + "\"}"@
}

/// The HTML fragment of an entry: a link to the target and the creation time.
pub open spec fn html_text(e: EntryView) -> Seq<char> {
    "<div class=\"entry\"><a href=\""@ + markup_escape(e.target_url) + "\">"@ + markup_escape(
        e.target_url,
    ) + "</a> <time datetime=\""@ + iso_timestamp(e.created_at) + "\">"@ + readable_timestamp(
        e.created_at,
    ) + "</time></div>"@
}

/// The RSS item of an entry.
pub open spec fn rss_text(e: EntryView) -> Seq<char> {
    "<item><title>"@ + markup_escape(e.key) + "</title><link>"@ + markup_escape(e.target_url)
        + "</link><guid isPermaLink=\"false\">"@ + markup_escape(e.namespace) + "/"@
        + markup_escape(e.key) + "</guid><pubDate>"@ + rfc822_timestamp(e.created_at)
        + "</pubDate></item>"@
}

pub open spec fn rendering(e: EntryView, format: Format) -> Seq<char> {
    match format {
        Format::Json => json_text(e),
        Format::Html => html_text(e),
        Format::Rss => rss_text(e),
    }
}

/// Renders an entry as a JSON object.
pub fn render_json(e: &Entry) -> (r: String)
    ensures
        r@ == json_text(e@),
{
    let mut out = String::new();
    out.append("{\"key\":\"");
    push_json_escaped(&mut out, e.key.as_str());
    out.append("\",\"namespace\":\"");
    push_json_escaped(&mut out, e.namespace.as_str());
    out.append("\",\"target_url\":\"");
    push_json_escaped(&mut out, e.target_url.as_str());
    out.append("\",\"created_at\":\"");
    push_iso_timestamp(&mut out, e.created_at);
    out.append("\"}");
    assert(out@ == json_text(e@));
    out
}

/// Renders an entry as an HTML fragment.
pub fn render_html(e: &Entry) -> (r: String)
    ensures
        r@ == html_text(e@),
{
    let mut out = String::new();
    out.append("<div class=\"entry\"><a href=\"");
    push_markup_escaped(&mut out, e.target_url.as_str());
    out.append("\">");
    push_markup_escaped(&mut out, e.target_url.as_str());
    out.append("</a> <time datetime=\"");
    push_iso_timestamp(&mut out, e.created_at);
    out.append("\">");
    push_readable_timestamp(&mut out, e.created_at);
    out.append("</time></div>");
    assert(out@ == html_text(e@));
    out
}

/// Renders an entry as an RSS item.
pub fn render_rss(e: &Entry) -> (r: String)
    ensures
        r@ == rss_text(e@),
{
    let mut out = String::new();
    out.append("<item><title>");
    push_markup_escaped(&mut out, e.key.as_str());
    out.append("</title><link>");
    push_markup_escaped(&mut out, e.target_url.as_str());
    out.append("</link><guid isPermaLink=\"false\">");
    push_markup_escaped(&mut out, e.namespace.as_str());
    out.append("/");
    push_markup_escaped(&mut out, e.key.as_str());
    out.append("</guid><pubDate>");
    push_rfc822_timestamp(&mut out, e.created_at);
    out.append("</pubDate></item>");
    assert(out@ == rss_text(e@));
    out
}

/// Renders an entry in the given format.
pub fn render(e: &Entry, format: Format) -> (r: String)
    ensures
        r@ == rendering(e@, format),
{
    match format {
        Format::Json => render_json(e),
        Format::Html => render_html(e),
        Format::Rss => render_rss(e),
    }
}

} // verus!
