//! The Link Store: the single table of short-URL mappings behind the
//! management API and the redirect resolver.
//!
//! Keys are case-folded before they are stored and before they are matched,
//! so a mapping is reachable whatever the case of the request path. The
//! store keeps at most one mapping per folded key: an insert of an existing
//! key is refused as a conflict and leaves the table as it was.

use vstd::prelude::*;
use vstd::string::*;

use crate::links::{LinkModel, ShortenedUrl};
use crate::text::{lower_seq, lemma_lower_seq_idempotent};

verus! {

/// Some stored link carries the key `k`.
pub open spec fn contains_key(s: Seq<LinkModel>, k: Seq<char>) -> bool {
    exists|i: int| 0 <= i < s.len() && s[i].short_url == k
}

/// How many stored links carry the key `k`.
pub open spec fn count_key(s: Seq<LinkModel>, k: Seq<char>) -> nat
    decreases s.len(),
{
    if s.len() == 0 {
        0
    } else {
        count_key(s.drop_last(), k) + (if s.last().short_url == k {
            1nat
        } else {
            0nat
        })
    }
}

/// The index of the link carrying the key `k` (meaningful only when the
/// keys are unique and `k` is present).
pub open spec fn key_index(s: Seq<LinkModel>, k: Seq<char>) -> int {
    choose|i: int| 0 <= i < s.len() && s[i].short_url == k
}

/// The stored link carrying the key `k`.
pub open spec fn link_at(s: Seq<LinkModel>, k: Seq<char>) -> LinkModel {
    s[key_index(s, k)]
}

/// No two stored links share a key.
pub open spec fn unique_keys(s: Seq<LinkModel>) -> bool {
    forall|i: int, j: int|
        0 <= i < j < s.len() ==> s[i].short_url != s[j].short_url
}

/// Every stored key is already case-folded.
pub open spec fn normalized_keys(s: Seq<LinkModel>) -> bool {
    forall|i: int| 0 <= i < s.len() ==> s[i].short_url == lower_seq(s[i].short_url)
}

/// The model of the link that a successful create stores: the key folded,
/// the target as given, the flag set.
pub open spec fn created_link(
    short_url: Seq<char>,
    target_url: Seq<char>,
    comment: Option<Seq<char>>,
) -> LinkModel {
    LinkModel { short_url: lower_seq(short_url), target_url, comment, active: true }
}

/// Refusal of a store operation: the key is already mapped.
#[derive(PartialEq, Eq, Structural, Clone, Copy, Debug)]
pub enum StoreError {
    Conflict,
}

/// The table of short-URL mappings, keyed by the case-folded short URL.
pub struct LinkStore {
    links: Vec<ShortenedUrl>,
}

impl View for LinkStore {
    type V = Seq<LinkModel>;

    closed spec fn view(&self) -> Seq<LinkModel> {
        self.links@.map_values(|l: ShortenedUrl| l@)
    }
}

impl LinkStore {
    /// The store's invariant: keys are unique and case-folded.
    pub open spec fn wf(&self) -> bool {
        unique_keys(self@) && normalized_keys(self@)
    }

    /// An empty table.
    pub fn new() -> (s: Self)
        ensures
            s@ =~= Seq::<LinkModel>::empty(),
            s.wf(),
    {
        let s = LinkStore { links: Vec::new() };
        proof {
            assert(s@ =~= Seq::<LinkModel>::empty());
        }
        s
    }

    /// The index of the link stored under the (already folded) key, if any.
    fn find_key(&self, key: &String) -> (r: Option<usize>)
        ensures
            match r {
                Some(i) => 0 <= i < self@.len() && self@[i as int].short_url == key@,
                None => !contains_key(self@, key@),
            },
    {
        let n = self.links.len();
        let mut j: usize = 0;
        while j < n
            invariant
                j <= n,
                n == self.links@.len(),
                forall|t: int| 0 <= t < j ==> self@[t].short_url != key@,
            decreases n - j,
        {
            if self.links[j].short_url.eq(key) {
                return Some(j);
            }
            j = j + 1;
        }
        None
    }

    /// Stores a new mapping under the case-folded short URL, or refuses
    /// with a conflict, leaving the table unchanged, when the folded key is
    /// already mapped.
    pub fn insert(
        &mut self,
        short_url: &String,
        target_url: &String,
        comment: &Option<String>,
    ) -> (r: Result<(), StoreError>)
        requires
            old(self).wf(),
        ensures
            final(self).wf(),
            r is Err <==> contains_key(old(self)@, lower_seq(short_url@)),
            r is Err ==> final(self)@ == old(self)@ && r == Result::<(), StoreError>::Err(
                StoreError::Conflict,
            ),
            r is Ok ==> final(self)@ == old(self)@.push(
                created_link(short_url@, target_url@, crate::links::opt_view(*comment)),
            ),
    {
        let key = crate::text::lower_ascii(short_url.as_str());
        match self.find_key(&key) {
            Some(_) => Err(StoreError::Conflict),
            None => {
                let link = ShortenedUrl {
                    short_url: key,
                    target_url: target_url.clone(),
                    comment: match comment {
                        Some(c) => Some(c.clone()),
                        None => None,
                    },
                    active: true,
                };
                proof {
                    let m = created_link(
                        short_url@,
                        target_url@,
                        crate::links::opt_view(*comment),
                    );
                    assert(link@ == m);
                    assert((old(self).links@.push(link)).map_values(|l: ShortenedUrl| l@)
                        =~= old(self)@.push(m));
                    lemma_lower_seq_idempotent(short_url@);
                }
                self.links.push(link);
                proof {
                    let s1 = self@;
                    let s0 = old(self)@;
                    assert(forall|i: int| 0 <= i < s0.len() ==> s1[i] == s0[i]);
                    assert(unique_keys(s1));
                    assert(normalized_keys(s1));
                }
                Ok(())
            },
        }
    }

    /// Removes the mapping stored under the case-folded short URL and
    /// reports how many rows that affected: one when the key was mapped,
    /// none — with the table unchanged — when it was not. A removed key is
    /// no longer present afterwards.
    pub fn delete(&mut self, short_url: &String) -> (r: u64)
        requires
            old(self).wf(),
        ensures
            final(self).wf(),
            !contains_key(old(self)@, lower_seq(short_url@)) ==> r == 0 && final(self)@ == old(
                self,
            )@,
            contains_key(old(self)@, lower_seq(short_url@)) ==> r == 1 && final(self)@ == old(
                self,
            )@.remove(key_index(old(self)@, lower_seq(short_url@))) && !contains_key(
                final(self)@,
                lower_seq(short_url@),
            ),
    {
        let key = crate::text::lower_ascii(short_url.as_str());
        match self.find_key(&key) {
            None => 0,
            Some(i) => {
                proof {
                    let s0 = self@;
                    let ki = key_index(s0, key@);
                    assert(contains_key(s0, key@));
                    assert(0 <= ki < s0.len() && s0[ki].short_url == key@);
                    assert(ki == i);
                    assert((self.links@.remove(i as int)).map_values(|l: ShortenedUrl| l@)
                        =~= s0.remove(i as int));
                }
                self.links.remove(i);
                proof {
                    let s1 = self@;
                    let s0 = old(self)@;
                    assert(forall|t: int|
                        0 <= t < s1.len() ==> s1[t] == (if t < i {
                            s0[t]
                        } else {
                            s0[t + 1]
                        }));
                    assert(unique_keys(s1));
                    assert(normalized_keys(s1));
                    assert forall|t: int| 0 <= t < s1.len() implies s1[t].short_url != key@ by {
                        if t < i {
                            assert(s0[t].short_url != s0[i as int].short_url);
                        } else {
                            assert(s0[t + 1].short_url != s0[i as int].short_url);
                        }
                    }
                }
                1
            },
        }
    }

    /// The target URL stored under the case-folded request path: the
    /// redirect resolver's query. Returns nothing exactly when the folded
    /// path is not mapped.
    pub fn lookup(&self, path: &str) -> (r: Option<String>)
        requires
            self.wf(),
        ensures
            match r {
                Some(t) => contains_key(self@, lower_seq(path@)) && t@ == link_at(
                    self@,
                    lower_seq(path@),
                ).target_url,
                None => !contains_key(self@, lower_seq(path@)),
            },
    {
        let key = crate::text::lower_ascii(path);
        match self.find_key(&key) {
            None => None,
            Some(i) => {
                proof {
                    let ki = key_index(self@, key@);
                    assert(contains_key(self@, key@));
                    assert(0 <= ki < self@.len() && self@[ki].short_url == key@);
                    assert(ki == i);
                }
                Some(self.links[i].target_url.clone())
            },
        }
    }

    /// Every stored link, in insertion order.
    pub fn list_all(&self) -> (r: &Vec<ShortenedUrl>)
        ensures
            r@.map_values(|l: ShortenedUrl| l@) == self@,
    {
        &self.links
    }

    /// How many links are stored.
    pub fn len(&self) -> (n: usize)
        ensures
            n == self@.len(),
    {
        self.links.len()
    }
}

/// A key is present exactly when it is counted at least once.
pub proof fn lemma_count_key_contains(s: Seq<LinkModel>, k: Seq<char>)
    ensures
        contains_key(s, k) <==> count_key(s, k) >= 1,
    decreases s.len(),
{
    if s.len() == 0 {
    } else {
        lemma_count_key_contains(s.drop_last(), k);
        if s.last().short_url == k {
            assert(s[s.len() - 1].short_url == k);
        } else {
            if contains_key(s, k) {
                let i = choose|i: int| 0 <= i < s.len() && s[i].short_url == k;
                assert(i < s.len() - 1);
                assert(s.drop_last()[i].short_url == k);
            }
            if contains_key(s.drop_last(), k) {
                let i = choose|i: int|
                    0 <= i < s.drop_last().len() && s.drop_last()[i].short_url == k;
                assert(s[i].short_url == k);
            }
        }
    }
}

/// Under unique keys, a present key is counted exactly once.
pub proof fn lemma_unique_count(s: Seq<LinkModel>, k: Seq<char>)
    requires
        unique_keys(s),
    ensures
        contains_key(s, k) ==> count_key(s, k) == 1,
        !contains_key(s, k) ==> count_key(s, k) == 0,
    decreases s.len(),
{
    lemma_count_key_contains(s, k);
    if s.len() == 0 {
    } else {
        let d = s.drop_last();
        assert(unique_keys(d)) by {
            assert(forall|i: int| 0 <= i < d.len() ==> d[i] == s[i]);
        }
        lemma_unique_count(d, k);
        lemma_count_key_contains(d, k);
        if s.last().short_url == k {
            assert(!contains_key(d, k)) by {
                if contains_key(d, k) {
                    let i = choose|i: int| 0 <= i < d.len() && d[i].short_url == k;
                    assert(s[i].short_url == s[s.len() - 1].short_url);
                }
            }
        } else {
            if contains_key(s, k) {
                let i = choose|i: int| 0 <= i < s.len() && s[i].short_url == k;
                assert(i < s.len() - 1);
                assert(d[i].short_url == k);
                assert(contains_key(d, k));
            }
            if contains_key(d, k) {
                let i = choose|i: int| 0 <= i < d.len() && d[i].short_url == k;
                assert(s[i].short_url == k);
                assert(contains_key(s, k));
            }
        }
    }
}

/// Counting distributes over appending one link.
pub proof fn lemma_count_key_push(s: Seq<LinkModel>, m: LinkModel, k: Seq<char>)
    ensures
        count_key(s.push(m), k) == count_key(s, k) + (if m.short_url == k {
            1nat
        } else {
            0nat
        }),
{
    assert(s.push(m).drop_last() =~= s);
    assert(s.push(m).last() == m);
}

/// A link created under a fresh key is listed exactly once afterwards, and
/// it is the link that was handed in: nothing else under that key appears
/// and nothing is lost.
pub proof fn lemma_create_listed_exactly_once(s: Seq<LinkModel>, m: LinkModel)
    requires
        unique_keys(s),
        !contains_key(s, m.short_url),
    ensures
        count_key(s.push(m), m.short_url) == 1,
        contains_key(s.push(m), m.short_url),
        link_at(s.push(m), m.short_url) == m,
        unique_keys(s.push(m)),
{
    lemma_unique_count(s, m.short_url);
    lemma_count_key_push(s, m, m.short_url);
    lemma_count_key_contains(s.push(m), m.short_url);
    let s1 = s.push(m);
    assert(s1[s.len() as int] == m);
    assert(unique_keys(s1)) by {
        assert(forall|i: int| 0 <= i < s.len() ==> s1[i] == s[i]);
        assert forall|i: int, j: int| 0 <= i < j < s1.len() implies s1[i].short_url
            != s1[j].short_url by {
            if j == s.len() as int {
                assert(!(s[i].short_url == m.short_url));
            }
        }
    }
    let ki = key_index(s1, m.short_url);
    assert(0 <= ki < s1.len() && s1[ki].short_url == m.short_url);
    assert(ki == s.len() as int) by {
        if ki < s.len() as int {
            assert(s[ki].short_url == m.short_url);
        }
    }
}

/// Once a key is deleted it is gone: the removal of the link under a key
/// leaves no link under that key behind.
pub proof fn lemma_delete_then_lookup_not_found(s: Seq<LinkModel>, k: Seq<char>)
    requires
        unique_keys(s),
        contains_key(s, k),
    ensures
        !contains_key(s.remove(key_index(s, k)), k),
{
    let i = key_index(s, k);
    assert(0 <= i < s.len() && s[i].short_url == k);
    let s1 = s.remove(i);
    assert forall|t: int| 0 <= t < s1.len() implies s1[t].short_url != k by {
        if t < i {
            assert(s1[t] == s[t]);
            assert(s[t].short_url != s[i].short_url);
        } else {
            assert(s1[t] == s[t + 1]);
            assert(s[t + 1].short_url != s[i].short_url);
        }
    }
}

/// Two creations under distinct fresh keys, in either interleaving the
/// storage engine serializes them to, both succeed and both links appear in
/// the listing exactly once: no write is lost.
pub proof fn lemma_distinct_creates_both_listed(s: Seq<LinkModel>, m1: LinkModel, m2: LinkModel)
    requires
        unique_keys(s),
        m1.short_url != m2.short_url,
        !contains_key(s, m1.short_url),
        !contains_key(s, m2.short_url),
    ensures
        !contains_key(s.push(m1), m2.short_url),
        count_key(s.push(m1).push(m2), m1.short_url) == 1,
        count_key(s.push(m1).push(m2), m2.short_url) == 1,
{
    let s1 = s.push(m1);
    assert(!contains_key(s1, m2.short_url)) by {
        if contains_key(s1, m2.short_url) {
            let i = choose|i: int| 0 <= i < s1.len() && s1[i].short_url == m2.short_url;
            if i < s.len() as int {
                assert(s[i].short_url == m2.short_url);
            } else {
                assert(s1[i] == m1);
            }
        }
    }
    lemma_unique_count(s, m1.short_url);
    lemma_unique_count(s, m2.short_url);
    lemma_count_key_push(s, m1, m1.short_url);
    lemma_count_key_push(s, m1, m2.short_url);
    lemma_count_key_push(s1, m2, m1.short_url);
    lemma_count_key_push(s1, m2, m2.short_url);
}

/// A link is reachable under any request path that folds to the key it
/// was stored under — the case of the path does not matter — and what is
/// found there is the created link, its target included.
pub proof fn lemma_case_insensitive_reach(
    s: Seq<LinkModel>,
    stored: Seq<char>,
    target: Seq<char>,
    comment: Option<Seq<char>>,
    path: Seq<char>,
)
    requires
        lower_seq(path) == lower_seq(stored),
    ensures
        contains_key(s.push(created_link(stored, target, comment)), lower_seq(path)),
        unique_keys(s) && !contains_key(s, lower_seq(stored)) ==> link_at(
            s.push(created_link(stored, target, comment)),
            lower_seq(path),
        ) == created_link(stored, target, comment),
{
    let m = created_link(stored, target, comment);
    let s1 = s.push(m);
    assert(s1[s.len() as int] == m);
    assert(m.short_url == lower_seq(path));
    if unique_keys(s) && !contains_key(s, lower_seq(stored)) {
        lemma_create_listed_exactly_once(s, m);
    }
}

} // verus!
