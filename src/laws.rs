use vstd::prelude::*;

use crate::normalize::normalized;
use crate::render::{html_text, json_text, rendering, rss_text, Format};
use crate::share::{namespace_of, share_outcome, show_outcome};
use crate::store::{
    is_target_url, key_used, lemma_put_well_formed, lookup, put_outcome, stored_key, url_stored,
    well_formed, EntryView, LinkError,
};
use crate::text::{json_escape, markup_escape};
use crate::time::{clock_text, datetime_of, iso_timestamp, rfc822_timestamp};

verus! {

/// After a successful store of `url` under `key`, looking `key` up gives an entry of
/// that namespace whose target is `url`.
pub proof fn lemma_put_then_lookup(s: Seq<EntryView>, ns: Seq<char>, url: Seq<char>, now: u64)
    requires
        well_formed(s),
        is_target_url(url),
        put_outcome(s, ns, url, now).0 is Ok,
    ensures
        ({
            let (r, s1) = put_outcome(s, ns, url, now);
            &&& url_stored(s1, ns, url)
            &&& stored_key(s1, ns, url) == r->Ok_0.0
            &&& lookup(s1, ns, r->Ok_0.0) matches Some(e) && e.target_url == url
                && e.namespace == ns && e.key == r->Ok_0.0
        }),
{
    let (r, s1) = put_outcome(s, ns, url, now);
    lemma_put_well_formed(s, ns, url, now);
    let k = r->Ok_0.0;
    let i = if url_stored(s, ns, url) {
        choose|i: int| 0 <= i < s.len() && #[trigger] s[i].namespace == ns && s[i].target_url == url
    } else {
        s.len() as int
    };
    assert(s1[i].namespace == ns && s1[i].target_url == url && s1[i].key == k);
    assert(url_stored(s1, ns, url));
    assert(key_used(s1, ns, k));
    let j = choose|j: int| 0 <= j < s1.len() && #[trigger] s1[j].namespace == ns && s1[j].key == k;
    assert(i == j);
    let m = choose|m: int|
        0 <= m < s1.len() && #[trigger] s1[m].namespace == ns && s1[m].target_url == url;
    assert(i == m);
}

/// Sharing the same URL twice in the same namespace gives the same key both times: the
/// second share creates nothing and leaves the store as it was, and the store then holds
/// exactly one entry of that namespace for the normalized URL.
pub proof fn share_is_idempotent(
    s: Seq<EntryView>,
    table: Seq<char>,
    url: Seq<char>,
    now1: u64,
    now2: u64,
)
    requires
        well_formed(s),
        share_outcome(s, table, Some(url), now1).0 is Ok,
    ensures
        ({
            let (r1, s1) = share_outcome(s, table, Some(url), now1);
            let (r2, s2) = share_outcome(s1, table, Some(url), now2);
            let ns = namespace_of(table)->Some_0;
            let t = normalized(url)->Some_0;
            &&& r2 == Ok::<(Seq<char>, bool), LinkError>((r1->Ok_0.0, false))
            &&& s2 == s1
            &&& well_formed(s1)
            &&& exists|i: int|
                0 <= i < s1.len() && #[trigger] s1[i].namespace == ns && s1[i].target_url == t
            &&& forall|i: int, j: int|
                0 <= i < s1.len() && 0 <= j < s1.len() && #[trigger] s1[i].namespace == ns
                    && s1[i].target_url == t && #[trigger] s1[j].namespace == ns
                    && s1[j].target_url == t ==> i == j
        }),
{
    let ns = namespace_of(table)->Some_0;
    let t = normalized(url)->Some_0;
    assert(is_target_url(t));
    lemma_put_well_formed(s, ns, t, now1);
    lemma_put_then_lookup(s, ns, t, now1);
}

/// Replays shares of one URL in one namespace, one after the other, stamped by `nows`:
/// the results in order, and the entries after the last.
pub open spec fn replay_shares(
    s: Seq<EntryView>,
    table: Seq<char>,
    url: Seq<char>,
    nows: Seq<u64>,
) -> (Seq<Result<(Seq<char>, bool), LinkError>>, Seq<EntryView>)
    decreases nows.len(),
{
    if nows.len() == 0 {
        (Seq::empty(), s)
    } else {
        let (r, s1) = share_outcome(s, table, Some(url), nows[0]);
        let (rs, sn) = replay_shares(s1, table, url, nows.drop_first());
        (seq![r] + rs, sn)
    }
}

proof fn lemma_replay_settled(s1: Seq<EntryView>, table: Seq<char>, url: Seq<char>, k: Seq<char>, nows: Seq<u64>)
    requires
        forall|now: u64|
            #[trigger] share_outcome(s1, table, Some(url), now) == (
                Ok::<(Seq<char>, bool), LinkError>((k, false)),
                s1,
            ),
    ensures
        replay_shares(s1, table, url, nows).1 == s1,
        replay_shares(s1, table, url, nows).0.len() == nows.len(),
        forall|i: int|
            0 <= i < nows.len() ==> #[trigger] replay_shares(s1, table, url, nows).0[i] == Ok::<
                (Seq<char>, bool),
                LinkError,
            >((k, false)),
    decreases nows.len(),
{
    if nows.len() > 0 {
        let _ = share_outcome(s1, table, Some(url), nows[0]);
        lemma_replay_settled(s1, table, url, k, nows.drop_first());
        let rs = replay_shares(s1, table, url, nows.drop_first()).0;
        assert forall|i: int| 0 <= i < nows.len() implies #[trigger] replay_shares(
            s1,
            table,
            url,
            nows,
        ).0[i] == Ok::<(Seq<char>, bool), LinkError>((k, false)) by {
            if i > 0 {
                assert(replay_shares(s1, table, url, nows).0[i] == rs[i - 1]);
            }
        }
    }
}

/// Shares of one URL in one namespace, applied one at a time in any order of arrival,
/// all report the same key; the first alone may create the entry (it does exactly when
/// the URL was not yet stored there), every later one reports it as existing, and the
/// store ends as the first share left it.
pub proof fn serialized_shares_agree(
    s: Seq<EntryView>,
    table: Seq<char>,
    url: Seq<char>,
    nows: Seq<u64>,
)
    requires
        well_formed(s),
        nows.len() > 0,
        share_outcome(s, table, Some(url), nows[0]).0 is Ok,
    ensures
        ({
            let (r1, s1) = share_outcome(s, table, Some(url), nows[0]);
            let (rs, sn) = replay_shares(s, table, url, nows);
            let k = r1->Ok_0.0;
            &&& rs.len() == nows.len()
            &&& sn == s1
            &&& rs[0] == Ok::<(Seq<char>, bool), LinkError>((
                k,
                !url_stored(s, namespace_of(table)->Some_0, normalized(url)->Some_0),
            ))
            &&& forall|i: int|
                1 <= i < nows.len() ==> #[trigger] rs[i] == Ok::<(Seq<char>, bool), LinkError>(
                    (k, false),
                )
        }),
{
    let (r1, s1) = share_outcome(s, table, Some(url), nows[0]);
    let k = r1->Ok_0.0;
    assert forall|now: u64|
        #[trigger] share_outcome(s1, table, Some(url), now) == (
            Ok::<(Seq<char>, bool), LinkError>((k, false)),
            s1,
        ) by {
        share_is_idempotent(s, table, url, nows[0], now);
    }
    lemma_replay_settled(s1, table, url, k, nows.drop_first());
    let rs = replay_shares(s1, table, url, nows.drop_first()).0;
    assert forall|i: int| 1 <= i < nows.len() implies #[trigger] replay_shares(
        s,
        table,
        url,
        nows,
    ).0[i] == Ok::<(Seq<char>, bool), LinkError>((k, false)) by {
        assert(replay_shares(s, table, url, nows).0[i] == rs[i - 1]);
    }
}

/// A lookup in a namespace only ever gives an entry of that namespace, under that key.
pub proof fn lookup_stays_in_namespace(s: Seq<EntryView>, ns: Seq<char>, key: Seq<char>)
    ensures
        lookup(s, ns, key) matches Some(e) ==> e.namespace == ns && e.key == key,
{
}

/// A share changes no lookup in any other namespace.
pub proof fn share_leaves_other_namespaces(
    s: Seq<EntryView>,
    table: Seq<char>,
    url: Option<Seq<char>>,
    now: u64,
    other: Seq<char>,
    key: Seq<char>,
)
    requires
        well_formed(s),
        namespace_of(table) != Some(other),
    ensures
        lookup(share_outcome(s, table, url, now).1, other, key) == lookup(s, other, key),
{
    let s1 = share_outcome(s, table, url, now).1;
    if s1 != s {
        let ns = namespace_of(table)->Some_0;
        let t = normalized(url->Some_0)->Some_0;
        assert(is_target_url(t));
        lemma_put_well_formed(s, ns, t, now);
        assert(s1 == s.push(s1.last()));
        assert(s1.last().namespace == ns);
        if key_used(s, other, key) {
            let i = choose|i: int|
                0 <= i < s.len() && #[trigger] s[i].namespace == other && s[i].key == key;
            assert(s1[i] == s[i]);
            let j = choose|j: int|
                0 <= j < s1.len() && #[trigger] s1[j].namespace == other && s1[j].key == key;
            assert(i == j);
        }
        if key_used(s1, other, key) {
            let j = choose|j: int|
                0 <= j < s1.len() && #[trigger] s1[j].namespace == other && s1[j].key == key;
            assert(s1[j] == s[j]);
        }
    }
}

/// Sharing one URL in two different namespaces makes two separate entries, each found
/// under its own key in its own namespace, both pointing at the normalized URL.
pub proof fn namespaces_are_isolated(
    s: Seq<EntryView>,
    table1: Seq<char>,
    table2: Seq<char>,
    url: Seq<char>,
    now1: u64,
    now2: u64,
)
    requires
        well_formed(s),
        share_outcome(s, table1, Some(url), now1).0 is Ok,
        share_outcome(share_outcome(s, table1, Some(url), now1).1, table2, Some(url), now2).0 is Ok,
        namespace_of(table1) != namespace_of(table2),
    ensures
        ({
            let (r1, s1) = share_outcome(s, table1, Some(url), now1);
            let (r2, s2) = share_outcome(s1, table2, Some(url), now2);
            let t = normalized(url)->Some_0;
            &&& lookup(s2, namespace_of(table1)->Some_0, r1->Ok_0.0) matches Some(e1)
                && e1.target_url == t && e1.namespace == namespace_of(table1)->Some_0
            &&& lookup(s2, namespace_of(table2)->Some_0, r2->Ok_0.0) matches Some(e2)
                && e2.target_url == t && e2.namespace == namespace_of(table2)->Some_0
        }),
{
    let (r1, s1) = share_outcome(s, table1, Some(url), now1);
    let ns1 = namespace_of(table1)->Some_0;
    let ns2 = namespace_of(table2)->Some_0;
    let t = normalized(url)->Some_0;
    assert(is_target_url(t));
    lemma_put_then_lookup(s, ns1, t, now1);
    lemma_put_well_formed(s, ns1, t, now1);
    lemma_put_then_lookup(s1, ns2, t, now2);
    share_leaves_other_namespaces(s1, table2, Some(url), now2, ns1, r1->Ok_0.0);
}

/// After a successful share, showing its key as JSON gives the JSON of an entry whose
/// target is the normalized URL.
pub proof fn share_then_show_round_trip(
    s: Seq<EntryView>,
    table: Seq<char>,
    url: Seq<char>,
    now: u64,
)
    requires
        well_formed(s),
        share_outcome(s, table, Some(url), now).0 is Ok,
    ensures
        ({
            let (r, s1) = share_outcome(s, table, Some(url), now);
            exists|e: EntryView|
                e.target_url == normalized(url)->Some_0 && e.key == r->Ok_0.0 && #[trigger] show_outcome(
                    s1,
                    table,
                    r->Ok_0.0,
                    Format::Json,
                ) == Ok::<Seq<char>, LinkError>(json_text(e))
        }),
{
    let (r, s1) = share_outcome(s, table, Some(url), now);
    let ns = namespace_of(table)->Some_0;
    let t = normalized(url)->Some_0;
    assert(is_target_url(t));
    lemma_put_then_lookup(s, ns, t, now);
    let e = lookup(s1, ns, r->Ok_0.0)->Some_0;
    assert(show_outcome(s1, table, r->Ok_0.0, Format::Json) == Ok::<Seq<char>, LinkError>(
        json_text(e),
    ));
}

/// Whether `piece` occurs in `text`.
pub open spec fn occurs_in(piece: Seq<char>, text: Seq<char>) -> bool {
    exists|i: int|
        0 <= i && i + piece.len() <= text.len() && #[trigger] text.subrange(i, i + piece.len())
            == piece
}

proof fn lemma_occurs(a: Seq<char>, p: Seq<char>, b: Seq<char>)
    ensures
        occurs_in(p, a + p + b),
{
    let t = a + p + b;
    assert(t.subrange(a.len() as int, (a.len() + p.len()) as int) =~= p);
}

/// Every format of an entry shows its target URL (escaped as the format requires) and
/// its creation time: JSON and HTML in ISO-8601 form, RSS in RFC-822 form, and all three
/// with the same time of day.
pub proof fn formats_agree(e: EntryView)
    ensures
        occurs_in(json_escape(e.target_url), rendering(e, Format::Json)),
        occurs_in(markup_escape(e.target_url), rendering(e, Format::Html)),
        occurs_in(markup_escape(e.target_url), rendering(e, Format::Rss)),
        occurs_in(iso_timestamp(e.created_at), rendering(e, Format::Json)),
        occurs_in(iso_timestamp(e.created_at), rendering(e, Format::Html)),
        occurs_in(rfc822_timestamp(e.created_at), rendering(e, Format::Rss)),
        occurs_in(clock_text(datetime_of(e.created_at)), iso_timestamp(e.created_at)),
        occurs_in(clock_text(datetime_of(e.created_at)), rfc822_timestamp(e.created_at)),
{
    let u = e.target_url;
    let t = e.created_at;
    let j = json_text(e);
    let pre = "{\"key\":\""@ + json_escape(e.key) + "\",\"namespace\":\""@ + json_escape(
        e.namespace,
    ) + "\",\"target_url\":\""@;
    let mid = "\",\"created_at\":\""@;
    assert(j == pre + json_escape(u) + (mid + iso_timestamp(t) + "\"}"@));
    lemma_occurs(pre, json_escape(u), mid + iso_timestamp(t) + "\"}"@);
    assert(j == (pre + json_escape(u) + mid) + iso_timestamp(t) + "\"}"@);
    lemma_occurs(pre + json_escape(u) + mid, iso_timestamp(t), "\"}"@);

    let h = html_text(e);
    let hpre = "<div class=\"entry\"><a href=\""@;
    let hrest = "\">"@ + markup_escape(u) + "</a> <time datetime=\""@ + iso_timestamp(t) + "\">"@
        + crate::time::readable_timestamp(t) + "</time></div>"@;
    assert(h == hpre + markup_escape(u) + hrest);
    lemma_occurs(hpre, markup_escape(u), hrest);
    let hpre2 = hpre + markup_escape(u) + "\">"@ + markup_escape(u) + "</a> <time datetime=\""@;
    let hpost2 = "\">"@ + crate::time::readable_timestamp(t) + "</time></div>"@;
    assert(h == hpre2 + iso_timestamp(t) + hpost2);
    lemma_occurs(hpre2, iso_timestamp(t), hpost2);

    let r = rss_text(e);
    let rpre = "<item><title>"@ + markup_escape(e.key) + "</title><link>"@;
    let rmid = "</link><guid isPermaLink=\"false\">"@ + markup_escape(e.namespace) + "/"@
        + markup_escape(e.key) + "</guid><pubDate>"@;
    let rpost = "</pubDate></item>"@;
    assert(r == rpre + markup_escape(u) + (rmid + rfc822_timestamp(t) + rpost));
    lemma_occurs(rpre, markup_escape(u), rmid + rfc822_timestamp(t) + rpost);
    assert(r == (rpre + markup_escape(u) + rmid) + rfc822_timestamp(t) + rpost);
    lemma_occurs(rpre + markup_escape(u) + rmid, rfc822_timestamp(t), rpost);

    let dt = datetime_of(t);
    let iso = iso_timestamp(t);
    assert(iso == (crate::time::date_text(dt) + "T"@) + clock_text(dt) + "Z"@);
    lemma_occurs(crate::time::date_text(dt) + "T"@, clock_text(dt), "Z"@);
    let rfc = rfc822_timestamp(t);
    let fpre = crate::time::weekday_abbr(dt.weekday) + ", "@ + crate::text::padded_decimal(
        dt.day as nat,
        2,
    ) + " "@ + crate::time::month_abbr(dt.month) + " "@ + crate::time::year_text(dt.year) + " "@;
    assert(rfc == fpre + clock_text(dt) + " +0000"@);
    lemma_occurs(fpre, clock_text(dt), " +0000"@);
}

} // verus!
