use vstd::prelude::*;
use vstd::string::*;

use crate::key::{derive_key, derived_key, MAX_ATTEMPTS};
use crate::normalize::{normalized, TargetUrl};
use crate::text::same_text;

verus! {

/// Failures of the link-sharing core.
#[derive(Debug, Clone, Copy, PartialEq, Eq, Structural)]
pub enum LinkError {
    /// A share request carried no URL.
    MissingUrl,
    /// The URL did not parse as an absolute `http`/`https` URL.
    InvalidUrl,
    /// The namespace is empty or too long.
    InvalidNamespace,
    /// No entry has that key in that namespace.
    NotFound,
    /// Every candidate key for the URL was taken by other URLs.
    KeySpaceExhausted,
}

/// A stored entry, as a mathematical value.
pub ghost struct EntryView {
    pub key: Seq<char>,
    pub namespace: Seq<char>,
    pub target_url: Seq<char>,
    pub created_at: u64,
}

/// A short key bound to a target URL within a namespace.
pub struct Entry {
    pub key: String,
    pub namespace: String,
    pub target_url: String,
    /// Seconds since the Unix epoch of the first share.
    pub created_at: u64,
}

impl View for Entry {
    type V = EntryView;

    open spec fn view(&self) -> EntryView {
        EntryView {
            key: self.key@,
            namespace: self.namespace@,
            target_url: self.target_url@,
            created_at: self.created_at,
        }
    }
}

impl Entry {
    /// A copy of this entry.
    pub fn duplicate(&self) -> (r: Entry)
        ensures
            r@ == self@,
    {
        Entry {
            key: self.key.clone(),
            namespace: self.namespace.clone(),
            target_url: self.target_url.clone(),
            created_at: self.created_at,
        }
    }
}

/// Whether `url` is what normalization gives for some input.
pub open spec fn is_target_url(url: Seq<char>) -> bool {
    exists|raw: Seq<char>| normalized(raw) == Some(url)
}

/// Keys are unique within a namespace, and so are target URLs; every target URL is
/// a normalized one.
pub open spec fn well_formed(s: Seq<EntryView>) -> bool {
    &&& forall|i: int, j: int|
        0 <= i < s.len() && 0 <= j < s.len() && i != j && #[trigger] s[i].namespace
            == #[trigger] s[j].namespace ==> s[i].key != s[j].key && s[i].target_url
            != s[j].target_url
    &&& forall|i: int| 0 <= i < s.len() ==> is_target_url(#[trigger] s[i].target_url)
}

/// Whether an entry of `namespace` has `key`.
pub open spec fn key_used(s: Seq<EntryView>, namespace: Seq<char>, key: Seq<char>) -> bool {
    exists|i: int| 0 <= i < s.len() && #[trigger] s[i].namespace == namespace && s[i].key == key
}

/// Whether an entry of `namespace` has `url` as its target.
pub open spec fn url_stored(s: Seq<EntryView>, namespace: Seq<char>, url: Seq<char>) -> bool {
    exists|i: int|
        0 <= i < s.len() && #[trigger] s[i].namespace == namespace && s[i].target_url == url
}

/// The entry of `namespace` with `key`, if any.
pub open spec fn lookup(s: Seq<EntryView>, namespace: Seq<char>, key: Seq<char>) -> Option<
    EntryView,
> {
    if key_used(s, namespace, key) {
        Some(
            s[choose|i: int|
                0 <= i < s.len() && #[trigger] s[i].namespace == namespace && s[i].key == key],
        )
    } else {
        None
    }
}

/// The key under which `url` is stored in `namespace` (meaningful when it is stored).
pub open spec fn stored_key(s: Seq<EntryView>, namespace: Seq<char>, url: Seq<char>) -> Seq<
    char,
> {
    s[choose|i: int|
        0 <= i < s.len() && #[trigger] s[i].namespace == namespace && s[i].target_url
            == url].key
}

/// The first attempt, from `a` on, whose derived key is free in `namespace`.
pub open spec fn free_attempt(s: Seq<EntryView>, namespace: Seq<char>, url: Seq<char>, a: u64) -> Option<u64>
    decreases MAX_ATTEMPTS - a,
{
    if a >= MAX_ATTEMPTS {
        None
    } else if !key_used(s, namespace, derived_key(namespace, url, a)) {
        Some(a)
    } else {
        free_attempt(s, namespace, url, (a + 1) as u64)
    }
}

/// What `put_if_absent` returns, and the entries after it.
pub open spec fn put_outcome(s: Seq<EntryView>, namespace: Seq<char>, url: Seq<char>, now: u64) -> (
    Result<(Seq<char>, bool), LinkError>,
    Seq<EntryView>,
) {
    if url_stored(s, namespace, url) {
        (Ok((stored_key(s, namespace, url), false)), s)
    } else {
        match free_attempt(s, namespace, url, 0) {
            Some(a) => {
                let key = derived_key(namespace, url, a);
                (
                    Ok((key, true)),
                    s.push(EntryView { key, namespace, target_url: url, created_at: now }),
                )
            },
            None => (Err(LinkError::KeySpaceExhausted), s),
        }
    }
}

/// The attempt that `free_attempt` picks has a key that the namespace does not use.
pub proof fn lemma_free_attempt(s: Seq<EntryView>, ns: Seq<char>, url: Seq<char>, a: u64)
    ensures
        free_attempt(s, ns, url, a) matches Some(b) ==> !key_used(
            s,
            ns,
            derived_key(ns, url, b),
        ),
    decreases MAX_ATTEMPTS - a,
{
    if a < MAX_ATTEMPTS {
        lemma_free_attempt(s, ns, url, (a + 1) as u64);
    }
}

/// Storing a normalized URL keeps the store well formed.
pub proof fn lemma_put_well_formed(s: Seq<EntryView>, ns: Seq<char>, url: Seq<char>, now: u64)
    requires
        well_formed(s),
        is_target_url(url),
    ensures
        well_formed(put_outcome(s, ns, url, now).1),
{
    let s1 = put_outcome(s, ns, url, now).1;
    if s1 != s {
        let e = s1.last();
        assert(s1 == s.push(e));
        lemma_free_attempt(s, ns, url, 0);
        assert(!url_stored(s, ns, url));
        assert(!key_used(s, ns, e.key));
        assert forall|i: int, j: int|
            0 <= i < s1.len() && 0 <= j < s1.len() && i != j && #[trigger] s1[i].namespace
                == #[trigger] s1[j].namespace implies s1[i].key != s1[j].key && s1[i].target_url
            != s1[j].target_url by {
            if i < s.len() && j < s.len() {
                assert(s1[i] == s[i] && s1[j] == s[j]);
            } else if i < s.len() {
                assert(s1[i] == s[i]);
            } else {
                assert(s1[j] == s[j]);
            }
        }
        assert forall|i: int| 0 <= i < s1.len() implies is_target_url(
            #[trigger] s1[i].target_url,
        ) by {
            if i < s.len() {
                assert(s1[i] == s[i]);
            }
        }
    }
}

/// The mathematical value of a key-and-created result.
pub open spec fn put_result_view(r: Result<(String, bool), LinkError>) -> Result<
    (Seq<char>, bool),
    LinkError,
> {
    match r {
        Ok((k, c)) => Ok((k@, c)),
        Err(e) => Err(e),
    }
}

/// All entries of all namespaces.
pub struct NamespaceStore {
    entries: Vec<Entry>,
}

impl View for NamespaceStore {
    type V = Seq<EntryView>;

    closed spec fn view(&self) -> Seq<EntryView> {
        self.entries@.map_values(|e: Entry| e@)
    }
}

impl NamespaceStore {
    pub open spec fn wf(&self) -> bool {
        well_formed(self@)
    }

    /// An empty store.
    pub fn new() -> (r: NamespaceStore)
        ensures
            r@ == Seq::<EntryView>::empty(),
            r.wf(),
    {
        let r = NamespaceStore { entries: Vec::new() };
        assert(r@ == Seq::<EntryView>::empty());
        r
    }

    /// Number of entries over all namespaces.
    pub fn len(&self) -> (r: usize)
        ensures
            r == self@.len(),
    {
        self.entries.len()
    }

    fn find_key(&self, namespace: &str, key: &str) -> (r: Option<usize>)
        ensures
            r matches Some(i) ==> i < self@.len() && self@[i as int].namespace == namespace@
                && self@[i as int].key == key@,
            r is None ==> !key_used(self@, namespace@, key@),
    {
        let mut i: usize = 0;
        while i < self.entries.len()
            invariant
                i <= self@.len(),
                self@.len() == self.entries@.len(),
                forall|j: int|
                    0 <= j < i ==> !(#[trigger] self@[j].namespace == namespace@ && self@[j].key
                        == key@),
            decreases self.entries.len() - i,
        {
            let e = &self.entries[i];
            if same_text(e.namespace.as_str(), namespace) && same_text(e.key.as_str(), key) {
                return Some(i);
            }
            i = i + 1;
        }
        None
    }

    fn find_url(&self, namespace: &str, url: &str) -> (r: Option<usize>)
        ensures
            r matches Some(i) ==> i < self@.len() && self@[i as int].namespace == namespace@
                && self@[i as int].target_url == url@,
            r is None ==> !url_stored(self@, namespace@, url@),
    {
        let mut i: usize = 0;
        while i < self.entries.len()
            invariant
                i <= self@.len(),
                self@.len() == self.entries@.len(),
                forall|j: int|
                    0 <= j < i ==> !(#[trigger] self@[j].namespace == namespace@
                        && self@[j].target_url == url@),
            decreases self.entries.len() - i,
        {
            let e = &self.entries[i];
            if same_text(e.namespace.as_str(), namespace) && same_text(
                e.target_url.as_str(),
                url,
            ) {
                return Some(i);
            }
            i = i + 1;
        }
        None
    }

    /// The entry of `namespace` with `key`; `NotFound` when there is none.
    pub fn get(&self, namespace: &str, key: &str) -> (r: Result<Entry, LinkError>)
        requires
            self.wf(),
        ensures
            r is Err <==> lookup(self@, namespace@, key@) is None,
            r matches Err(e) ==> e == LinkError::NotFound,
            r matches Ok(e) ==> lookup(self@, namespace@, key@) == Some(e@),
            r matches Ok(e) ==> e@.namespace == namespace@ && e@.key == key@,
    {
        match self.find_key(namespace, key) {
            Some(i) => {
                let e = self.entries[i].duplicate();
                assert(key_used(self@, namespace@, key@));
                let ghost c = choose|j: int|
                    0 <= j < self@.len() && #[trigger] self@[j].namespace == namespace@
                        && self@[j].key == key@;
                assert(c == i as int);
                Ok(e)
            },
            None => Err(LinkError::NotFound),
        }
    }

    /// Stores `url` in `namespace` unless it is there already. Returns its key, and
    /// whether this call created the entry (stamped `now`). Fails with
    /// `KeySpaceExhausted`, leaving the store as it was, when every candidate key is
    /// taken by another URL of the namespace.
    pub fn put_if_absent(&mut self, namespace: &str, url: &TargetUrl, now: u64) -> (r: Result<
        (String, bool),
        LinkError,
    >)
        requires
            old(self).wf(),
        ensures
            final(self).wf(),
            (put_result_view(r), final(self)@) == put_outcome(
                old(self)@,
                namespace@,
                url@,
                now,
            ),
    {
        let u = url.as_str();
        assert(is_target_url(u@));
        match self.find_url(namespace, u) {
            Some(i) => {
                let k = self.entries[i].key.clone();
                let ghost c = choose|j: int|
                    0 <= j < self@.len() && #[trigger] self@[j].namespace == namespace@
                        && self@[j].target_url == u@;
                assert(c == i as int);
                return Ok((k, false));
            },
            None => {},
        }
        let mut a: u64 = 0;
        while a < MAX_ATTEMPTS
            invariant
                self.wf(),
                self@ == old(self)@,
                a <= MAX_ATTEMPTS,
                u@ == url@,
                is_target_url(u@),
                !url_stored(self@, namespace@, u@),
                free_attempt(self@, namespace@, u@, 0) == free_attempt(self@, namespace@, u@, a),
            decreases MAX_ATTEMPTS - a,
        {
            let key = derive_key(namespace, u, a);
            match self.find_key(namespace, key.as_str()) {
                Some(_) => {},
                None => {
                    let ghost s = self@;
                    let e = Entry {
                        key: key.clone(),
                        namespace: namespace.to_owned(),
                        target_url: u.to_owned(),
                        created_at: now,
                    };
                    self.entries.push(e);
                    assert(self@ == s.push(e@));
                    proof {
                        lemma_put_well_formed(s, namespace@, url@, now);
                    }
                    return Ok((key, true));
                },
            }
            a = a + 1;
        }
        Err(LinkError::KeySpaceExhausted)
    }
}

} // verus!
