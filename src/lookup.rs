use vstd::prelude::*;

use crate::card::{Card, CardView};
use crate::clock::seconds_in_days;
use crate::local::{card_with_id, LocalCardStorage};

verus! {

/// How many days a search term stays trusted after it was last written.
pub const STALE_AFTER_DAYS: i64 = 30;

/// One entry of the search-term index as the contracts see it.
pub struct LookupView {
    pub search_term: Seq<char>,
    pub card_id: i64,
    pub last_updated: i64,
}

/// An entry of the search-term index: `search_term` resolved to the card with
/// id `card_id`, last written at `last_updated` (seconds since the epoch).
#[derive(Clone, Debug)]
pub struct CardLookup {
    pub search_term: String,
    pub card_id: i64,
    pub last_updated: i64,
}

impl View for CardLookup {
    type V = LookupView;

    open spec fn view(&self) -> LookupView {
        LookupView {
            search_term: self.search_term@,
            card_id: self.card_id,
            last_updated: self.last_updated,
        }
    }
}

impl CardLookup {
    fn duplicate(&self) -> (r: CardLookup)
        ensures
            r@ == self@,
    {
        CardLookup {
            search_term: self.search_term.clone(),
            card_id: self.card_id,
            last_updated: self.last_updated,
        }
    }
}

/// A search term and the card it resolved to, to be written to the index.
#[derive(Clone, Debug)]
pub struct NewCardLookup {
    query: String,
    card_id: i64,
}

impl View for NewCardLookup {
    type V = (Seq<char>, i64);

    closed spec fn view(&self) -> (Seq<char>, i64) {
        (self.query@, self.card_id)
    }
}

impl NewCardLookup {
    pub fn new(query: String, card_id: i64) -> (r: NewCardLookup)
        ensures
            r@ == (query@, card_id),
    {
        NewCardLookup { query, card_id }
    }
}

/// An entry is trusted while less than the staleness period has passed since
/// it was written.
pub open spec fn is_fresh(e: LookupView, now: i64) -> bool {
    now - e.last_updated < STALE_AFTER_DAYS * 86400
}

/// `is_fresh` at time `now`, as a predicate for `Seq::filter`.
pub open spec fn fresh_at(now: i64) -> spec_fn(LookupView) -> bool {
    |e: LookupView| is_fresh(e, now)
}

/// Holds of the entries for any term but `term`.
pub open spec fn other_term(term: Seq<char>) -> spec_fn(LookupView) -> bool {
    |e: LookupView| e.search_term != term
}

/// The index once every stale entry is dropped.
pub open spec fn purged(s: Seq<LookupView>, now: i64) -> Seq<LookupView> {
    s.filter(fresh_at(now))
}

/// The index once `term` maps to `card_id`, written at `now`: any earlier
/// entry for the term gives way to the new one.
pub open spec fn upserted(s: Seq<LookupView>, term: Seq<char>, card_id: i64, now: i64) -> Seq<LookupView> {
    s.filter(other_term(term)).push(LookupView { search_term: term, card_id, last_updated: now })
}

/// The last entry of `s` (the only one, after `upserted`) for `term`.
pub open spec fn find_term(s: Seq<LookupView>, term: Seq<char>) -> Option<LookupView>
    decreases s.len(),
{
    if s.len() == 0 {
        None
    } else if s.last().search_term == term {
        Some(s.last())
    } else {
        find_term(s.drop_last(), term)
    }
}

/// The canonical record that `term` leads to through index `s`, if any.
pub open spec fn index_hit(t: Seq<CardView>, s: Seq<LookupView>, term: Seq<char>) -> Option<CardView> {
    match find_term(s, term) {
        Some(e) => card_with_id(t, e.card_id),
        None => None,
    }
}

/// No two entries share a search term.
pub open spec fn terms_unique(s: Seq<LookupView>) -> bool {
    forall|i: int, j: int|
        0 <= i < j < s.len() ==> #[trigger] s[i].search_term != #[trigger] s[j].search_term
}

/// Every entry that survives a filter was an entry before it.
pub proof fn lemma_filter_subset(s: Seq<LookupView>, p: spec_fn(LookupView) -> bool)
    ensures
        forall|k: int| 0 <= k < s.filter(p).len() ==> s.contains(#[trigger] s.filter(p)[k]),
    decreases s.len(),
{
    reveal(Seq::filter);
    if s.len() > 0 {
        let d = s.drop_last();
        lemma_filter_subset(d, p);
        assert forall|k: int| 0 <= k < s.filter(p).len() implies s.contains(#[trigger] s.filter(p)[k]) by {
            if k < d.filter(p).len() {
                assert(s.filter(p)[k] == d.filter(p)[k]);
                let m: int = choose|m: int| 0 <= m < d.len() && d[m] == d.filter(p)[k];
                assert(s[m] == d[m]);
            } else {
                assert(s.filter(p)[k] == s[s.len() - 1]);
            }
        }
    }
}

/// Filtering keeps the search terms unique.
pub proof fn lemma_filter_unique(s: Seq<LookupView>, p: spec_fn(LookupView) -> bool)
    requires
        terms_unique(s),
    ensures
        terms_unique(s.filter(p)),
    decreases s.len(),
{
    reveal(Seq::filter);
    if s.len() > 0 {
        let d = s.drop_last();
        assert(terms_unique(d)) by {
            assert forall|i: int, j: int| 0 <= i < j < d.len() implies
                #[trigger] d[i].search_term != #[trigger] d[j].search_term by {
                assert(d[i] == s[i] && d[j] == s[j]);
            }
        }
        lemma_filter_unique(d, p);
        if p(s.last()) {
            lemma_filter_subset(d, p);
            let f = d.filter(p);
            let g = f.push(s.last());
            assert forall|i: int, j: int| 0 <= i < j < g.len() implies
                #[trigger] g[i].search_term != #[trigger] g[j].search_term by {
                if j == f.len() {
                    assert(g[i] == f[i]);
                    assert(d.contains(f[i]));
                    let m: int = choose|m: int| 0 <= m < d.len() && d[m] == f[i];
                    assert(s[m] == d[m]);
                } else {
                    assert(g[i] == f[i] && g[j] == f[j]);
                }
            }
        }
    }
}

/// Writing a term keeps the search terms unique, and leaves exactly one
/// entry for the written term: the new one, last.
pub proof fn lemma_upserted_unique(s: Seq<LookupView>, term: Seq<char>, card_id: i64, now: i64)
    requires
        terms_unique(s),
    ensures
        terms_unique(upserted(s, term, card_id, now)),
        find_term(upserted(s, term, card_id, now), term)
            == Some(LookupView { search_term: term, card_id, last_updated: now }),
        forall|k: int| 0 <= k < upserted(s, term, card_id, now).len() - 1
            ==> #[trigger] upserted(s, term, card_id, now)[k].search_term != term,
{
    let f = s.filter(other_term(term));
    lemma_filter_unique(s, other_term(term));
    let g = upserted(s, term, card_id, now);
    assert forall|k: int| 0 <= k < g.len() - 1 implies #[trigger] g[k].search_term != term by {
        s.lemma_filter_pred(other_term(term), k);
        assert(g[k] == f[k]);
        assert(other_term(term)(f[k]));
    }
    assert forall|i: int, j: int| 0 <= i < j < g.len() implies
        #[trigger] g[i].search_term != #[trigger] g[j].search_term by {
        if j < g.len() - 1 {
            assert(g[i] == f[i] && g[j] == f[j]);
        } else {
            assert(g[i].search_term != term);
        }
    }
}

/// The search-term index: a secondary map from free-text terms to canonical
/// card ids, each entry trusted for a bounded time.
pub struct LocalCardLookup {
    entries: Vec<CardLookup>,
}

impl View for LocalCardLookup {
    type V = Seq<LookupView>;

    closed spec fn view(&self) -> Seq<LookupView> {
        self.entries@.map_values(|e: CardLookup| e@)
    }
}

impl LocalCardLookup {
    /// Holds of every index that `new` and the methods below produce.
    pub open spec fn wf(&self) -> bool {
        terms_unique(self@)
    }

    /// An empty index.
    pub fn new() -> (r: LocalCardLookup)
        ensures
            r.wf(),
            r@ == Seq::<LookupView>::empty(),
    {
        let r = LocalCardLookup { entries: Vec::new() };
        assert(r@ =~= Seq::<LookupView>::empty());
        r
    }

    /// The entries, oldest write first.
    pub fn entries(&self) -> (r: Vec<CardLookup>)
        ensures
            r@.map_values(|e: CardLookup| e@) == self@,
    {
        let mut r: Vec<CardLookup> = Vec::new();
        let mut i: usize = 0;
        while i < self.entries.len()
            invariant
                i <= self.entries.len(),
                r@.map_values(|e: CardLookup| e@) == self@.subrange(0, i as int),
            decreases self.entries.len() - i,
        {
            let ghost before = r@;
            let e = self.entries[i].duplicate();
            r.push(e);
            assert(r@.map_values(|x: CardLookup| x@) =~= before.map_values(|x: CardLookup| x@).push(e@));
            assert(self@.subrange(0, i + 1) =~= self@.subrange(0, i as int).push(self@[i as int]));
            i = i + 1;
        }
        assert(self@.subrange(0, i as int) =~= self@);
        r
    }

    /// Writes `lookup` with time `now`, replacing any entry for the same term.
    pub fn insert(&mut self, lookup: NewCardLookup, now: i64)
        requires
            old(self).wf(),
        ensures
            final(self).wf(),
            final(self)@ == upserted(old(self)@, lookup@.0, lookup@.1, now),
    {
        let ghost s = self@;
        let mut kept: Vec<CardLookup> = Vec::new();
        let mut i: usize = 0;
        while i < self.entries.len()
            invariant
                i <= self.entries.len(),
                self@ == s,
                kept@.map_values(|e: CardLookup| e@) == s.subrange(0, i as int).filter(other_term(lookup@.0)),
            decreases self.entries.len() - i,
        {
            let ghost before = s.subrange(0, i as int);
            proof {
                reveal(Seq::filter);
                assert(s.subrange(0, i + 1).drop_last() =~= before);
            }
            if self.entries[i].search_term != lookup.query {
                kept.push(self.entries[i].duplicate());
            }
            i = i + 1;
            assert(kept@.map_values(|e: CardLookup| e@) =~= s.subrange(0, i as int).filter(other_term(lookup@.0)));
        }
        assert(s.subrange(0, i as int) =~= s);
        kept.push(CardLookup { search_term: lookup.query, card_id: lookup.card_id, last_updated: now });
        self.entries = kept;
        assert(self@ =~= upserted(s, lookup@.0, lookup@.1, now));
        proof {
            lemma_upserted_unique(s, lookup@.0, lookup@.1, now);
        }
    }

    /// Drops every entry that is stale at time `now`.
    pub fn clear(&mut self, now: i64)
        requires
            old(self).wf(),
        ensures
            final(self).wf(),
            final(self)@ == purged(old(self)@, now),
    {
        let ghost s = self@;
        let ttl: i64 = seconds_in_days(STALE_AFTER_DAYS);
        let mut kept: Vec<CardLookup> = Vec::new();
        let mut i: usize = 0;
        while i < self.entries.len()
            invariant
                i <= self.entries.len(),
                self@ == s,
                ttl == STALE_AFTER_DAYS * 86400,
                kept@.map_values(|e: CardLookup| e@) == s.subrange(0, i as int).filter(fresh_at(now)),
            decreases self.entries.len() - i,
        {
            let ghost before = s.subrange(0, i as int);
            proof {
                reveal(Seq::filter);
                assert(s.subrange(0, i + 1).drop_last() =~= before);
            }
            if (now as i128) - (self.entries[i].last_updated as i128) < ttl as i128 {
                kept.push(self.entries[i].duplicate());
            }
            i = i + 1;
            assert(kept@.map_values(|e: CardLookup| e@) =~= s.subrange(0, i as int).filter(fresh_at(now)));
        }
        assert(s.subrange(0, i as int) =~= s);
        self.entries = kept;
        assert(self@ =~= purged(s, now));
        proof {
            lemma_filter_unique(s, fresh_at(now));
        }
    }

    /// The card that `term` resolves to at time `now`. An empty term finds
    /// nothing and touches nothing; any other term first has the stale
    /// entries dropped, then is looked up and joined with `cards` by id.
    pub fn query(&mut self, term: &String, now: i64, cards: &LocalCardStorage) -> (r: Option<Card>)
        requires
            old(self).wf(),
        ensures
            final(self).wf(),
            term@.len() == 0 ==> final(self)@ == old(self)@ && r is None,
            term@.len() > 0 ==> final(self)@ == purged(old(self)@, now) && match index_hit(cards@, final(self)@, term@) {
                Some(c) => r matches Some(x) && x@ == c,
                None => r is None,
            },
    {
        if term.as_str().is_empty() {
            return None;
        }
        self.clear(now);
        let mut i: usize = self.entries.len();
        assert(self@.subrange(0, i as int) =~= self@);
        while i > 0
            invariant
                i <= self.entries.len(),
                term@.len() > 0,
                self.wf(),
                self@ == purged(old(self)@, now),
                find_term(self@, term@) == find_term(self@.subrange(0, i as int), term@),
            decreases i,
        {
            assert(self@.subrange(0, i as int).drop_last() =~= self@.subrange(0, i - 1));
            if self.entries[i - 1].search_term == *term {
                assert(find_term(self@, term@) == Some(self@[i - 1]));
                return match cards.get(self.entries[i - 1].card_id) {
                    Ok(c) => Some(c),
                    Err(_) => None,
                };
            }
            i = i - 1;
        }
        None
    }
}

} // verus!
