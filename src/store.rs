use vstd::prelude::*;

use crate::card::{Card, CardError, CardData, CardView, NewCard};
use crate::clock::now_timestamp;
use crate::local::{
    get_or_insert_outcome, lemma_get_or_insert_idempotent, lemma_get_or_insert_wf,
    table_wf, LocalCardStorage,
};
use crate::lookup::{
    find_term, fresh_at, index_hit, is_fresh, other_term, purged, terms_unique, upserted, LocalCardLookup,
    LookupView, NewCardLookup, STALE_AFTER_DAYS,
};

verus! {

/// Both tables of a `CardStore`.
pub struct StoreView {
    pub cards: Seq<CardView>,
    pub lookups: Seq<LookupView>,
}

/// What `CardStore::search` decided.
pub enum SearchStep {
    /// The request is answered without the remote service: `None` for an
    /// empty term, the indexed card on a hit.
    Done(Option<Card>),
    /// The index has no fresh entry for the term: the remote service is to be
    /// asked for a card of that exact name, and its answer handed to
    /// `CardStore::complete_search`.
    FetchNamed,
}

/// What `CardStore::suggestions` decided.
pub enum SuggestionStep {
    /// The answer, given without the remote service.
    Ready(Vec<String>),
    /// The remote service is to be asked for completions of this text.
    FetchAutocomplete(String),
}

/// What to do with the remote service's suggestions for a term that found
/// no card.
pub enum SuggestionOutcome {
    /// There is nothing to offer.
    NoMatch,
    /// A single suggestion: resolve it as a search term in its own right.
    SearchFor(String),
    /// Several suggestions: offer them, in the order given.
    Offer(Vec<String>),
}

/// Decides what follows a failed search from the suggestions for its term.
pub fn after_suggestions(suggestions: Vec<String>) -> (r: SuggestionOutcome)
    ensures
        suggestions@.len() == 0 ==> r is NoMatch,
        suggestions@.len() == 1 ==> (r matches SuggestionOutcome::SearchFor(s) && s@ == suggestions@[0]@),
        suggestions@.len() > 1 ==> (r matches SuggestionOutcome::Offer(v) && v@ == suggestions@),
{
    if suggestions.len() == 0 {
        SuggestionOutcome::NoMatch
    } else if suggestions.len() == 1 {
        let mut suggestions = suggestions;
        let only = suggestions.pop();
        match only {
            Some(s) => SuggestionOutcome::SearchFor(s),
            None => SuggestionOutcome::NoMatch,
        }
    } else {
        SuggestionOutcome::Offer(suggestions)
    }
}

pub open spec fn opt_card_view(o: Option<Card>) -> Option<CardView> {
    match o {
        Some(c) => Some(c@),
        None => None,
    }
}

impl View for SearchStep {
    /// `Some(answer)` when done, `None` when the remote service is to be asked.
    type V = Option<Option<CardView>>;

    open spec fn view(&self) -> Option<Option<CardView>> {
        match self {
            SearchStep::Done(o) => Some(opt_card_view(*o)),
            SearchStep::FetchNamed => None,
        }
    }
}

/// The tables are well formed: ids in order and names unique in the
/// canonical table, one entry per term in the index.
pub open spec fn store_wf(st: StoreView) -> bool {
    table_wf(st.cards) && terms_unique(st.lookups)
}

/// The tables after `search(term)` at time `now`: an empty term touches
/// nothing; any other drops the stale index entries.
pub open spec fn after_search(st: StoreView, term: Seq<char>, now: i64) -> StoreView {
    if term.len() == 0 {
        st
    } else {
        StoreView { cards: st.cards, lookups: purged(st.lookups, now) }
    }
}

/// What `search(term)` at time `now` decides, as `SearchStep`'s view.
pub open spec fn search_answer(st: StoreView, term: Seq<char>, now: i64) -> Option<Option<CardView>> {
    if term.len() == 0 {
        Some(None)
    } else {
        match index_hit(st.cards, purged(st.lookups, now), term) {
            Some(c) => Some(Some(c)),
            None => None,
        }
    }
}

/// The tables and the answer after the remote service answered `fetched`
/// for a non-empty `term` at time `now`: a found card is made canonical and
/// the term is written to the index under the canonical id.
pub open spec fn complete_outcome(st: StoreView, term: Seq<char>, fetched: Option<CardData>, now: i64)
    -> (StoreView, Result<Option<CardView>, CardError>)
{
    if term.len() == 0 {
        (st, Ok(None))
    } else {
        match fetched {
            None => (st, Ok(None)),
            Some(data) => match get_or_insert_outcome(st.cards, data) {
                Some((t, row)) => (
                    StoreView { cards: t, lookups: upserted(st.lookups, term, row.id, now) },
                    Ok(Some(row)),
                ),
                None => (st, Err(CardError::PersistenceFailure)),
            },
        }
    }
}

/// The tables and the answer after a random draw from the remote service
/// returned `fetched`: the card is made canonical; the index is not touched.
pub open spec fn random_outcome(st: StoreView, fetched: CardData) -> (StoreView, Result<CardView, CardError>) {
    match get_or_insert_outcome(st.cards, fetched) {
        Some((t, row)) => (StoreView { cards: t, lookups: st.lookups }, Ok(row)),
        None => (st, Err(CardError::PersistenceFailure)),
    }
}

pub open spec fn fetched_view(o: Option<NewCard>) -> Option<CardData> {
    match o {
        Some(c) => Some(c@),
        None => None,
    }
}

pub open spec fn opt_result_view(r: Result<Option<Card>, CardError>) -> Result<Option<CardView>, CardError> {
    match r {
        Ok(o) => Ok(opt_card_view(o)),
        Err(e) => Err(e),
    }
}

pub open spec fn result_view(r: Result<Card, CardError>) -> Result<CardView, CardError> {
    match r {
        Ok(c) => Ok(c@),
        Err(e) => Err(e),
    }
}

/// After a remote hit for a non-empty term is completed at time `now`, a
/// search for the same term at any time `later` less than the staleness
/// period after `now` is answered from the index, with the same record, and
/// does not ask the remote service.
pub proof fn lemma_search_converges(
    st: StoreView,
    term: Seq<char>,
    fetched: CardData,
    now: i64,
    later: i64,
)
    requires
        store_wf(st),
        term.len() > 0,
        later - now < STALE_AFTER_DAYS * 86400,
        get_or_insert_outcome(st.cards, fetched) is Some,
    ensures
        ({
            let (st1, r) = complete_outcome(st, term, Some(fetched), now);
            &&& r matches Ok(Some(c))
            &&& search_answer(st1, term, later) == Some(r->Ok_0)
            &&& after_search(st1, term, later).cards == st1.cards
        }),
{
    lemma_get_or_insert_wf(st.cards, fetched);
    let (st1, r) = complete_outcome(st, term, Some(fetched), now);
    let row = get_or_insert_outcome(st.cards, fetched)->Some_0.1;
    let e = LookupView { search_term: term, card_id: row.id, last_updated: now };
    let rest = st.lookups.filter(other_term(term));
    assert(st1.lookups == rest.push(e));
    assert(is_fresh(e, later));
    assert(rest.push(e).drop_last() =~= rest);
    assert(purged(st1.lookups, later) == rest.filter(fresh_at(later)).push(e)) by {
        reveal(Seq::filter);
    }
    assert(find_term(purged(st1.lookups, later), term) == Some(e));
}

/// `find_term` on the entries of `s` that are fresh at `now` finds nothing
/// for a term all of whose entries are stale.
pub proof fn lemma_stale_entries_dropped(s: Seq<LookupView>, term: Seq<char>, now: i64)
    requires
        forall|i: int| 0 <= i < s.len() && #[trigger] s[i].search_term == term ==> !is_fresh(s[i], now),
    ensures
        find_term(purged(s, now), term) is None,
    decreases s.len(),
{
    reveal(Seq::filter);
    if s.len() > 0 {
        let d = s.drop_last();
        assert forall|i: int| 0 <= i < d.len() && #[trigger] d[i].search_term == term implies !is_fresh(d[i], now) by {
            assert(d[i] == s[i]);
        }
        lemma_stale_entries_dropped(d, term, now);
        if is_fresh(s.last(), now) {
            assert(s.last().search_term != term);
            assert(purged(s, now).drop_last() =~= purged(d, now));
        }
    }
}

/// A term whose index entries were all written at least the staleness period
/// before `now` does not satisfy a search at `now`: it behaves as a miss and
/// the remote service is asked again.
pub proof fn lemma_stale_term_misses(st: StoreView, term: Seq<char>, now: i64)
    requires
        term.len() > 0,
        forall|i: int|
            0 <= i < st.lookups.len() && #[trigger] st.lookups[i].search_term == term
                ==> now - st.lookups[i].last_updated >= STALE_AFTER_DAYS * 86400,
    ensures
        search_answer(st, term, now) is None,
{
    lemma_stale_entries_dropped(st.lookups, term, now);
}

/// Two random draws that return cards of the same name converge on one
/// canonical record: the second draw returns the first one's record and
/// changes neither table, and the table holds exactly one row of that name.
pub proof fn lemma_random_converges(st: StoreView, a: CardData, b: CardData)
    requires
        store_wf(st),
        a.name == b.name,
        get_or_insert_outcome(st.cards, a) is Some,
    ensures
        ({
            let (st1, first) = random_outcome(st, a);
            &&& first is Ok
            &&& random_outcome(st1, b) == (st1, first)
            &&& exists|i: int| 0 <= i < st1.cards.len() && #[trigger] st1.cards[i].data.name == a.name
                && forall|j: int| 0 <= j < st1.cards.len() && #[trigger] st1.cards[j].data.name == a.name ==> j == i
        }),
{
    lemma_get_or_insert_idempotent(st.cards, a, b);
    let (t1, row) = get_or_insert_outcome(st.cards, a)->Some_0;
    let st1 = StoreView { cards: t1, lookups: st.lookups };
    assert(random_outcome(st, a) == (st1, Ok::<CardView, CardError>(row)));
    assert(get_or_insert_outcome(st1.cards, b) == Some((t1, row)));
    assert(random_outcome(st1, b) == (st1, Ok::<CardView, CardError>(row)));
}

/// The card resolution cache: a canonical table of cards and an index of
/// search terms, consulted before the remote service and filled from it.
pub struct CardStore {
    lookups: LocalCardLookup,
    local: LocalCardStorage,
}

impl View for CardStore {
    type V = StoreView;

    closed spec fn view(&self) -> StoreView {
        StoreView { cards: self.local@, lookups: self.lookups@ }
    }
}

impl CardStore {
    /// Holds of every store that `new` and the methods below produce.
    pub closed spec fn wf(&self) -> bool {
        self.local.wf() && self.lookups.wf()
    }

    /// The tables of a well-formed store meet `store_wf`, under which the
    /// laws above apply to them.
    pub proof fn lemma_wf(&self)
        requires
            self.wf(),
        ensures
            store_wf(self@),
    {
    }

    /// A store with both tables empty.
    pub fn new() -> (r: CardStore)
        ensures
            r.wf(),
            r@.cards == Seq::<CardView>::empty(),
            r@.lookups == Seq::<LookupView>::empty(),
    {
        CardStore { lookups: LocalCardLookup::new(), local: LocalCardStorage::new() }
    }

    /// The canonical table.
    pub fn cards(&self) -> (r: &LocalCardStorage)
        ensures
            r@ == self@.cards,
    {
        &self.local
    }

    /// The search-term index.
    pub fn lookups(&self) -> (r: &LocalCardLookup)
        ensures
            r@ == self@.lookups,
    {
        &self.lookups
    }

    /// First step of resolving `term` at time `now`: answers from the index
    /// where it can, and otherwise asks for a remote lookup by name.
    pub fn search_at(&mut self, term: &String, now: i64) -> (r: SearchStep)
        requires
            old(self).wf(),
        ensures
            final(self).wf(),
            final(self)@ == after_search(old(self)@, term@, now),
            r@ == search_answer(old(self)@, term@, now),
    {
        let found = self.lookups.query(term, now, &self.local);
        if term.as_str().is_empty() {
            return SearchStep::Done(None);
        }
        match found {
            Some(c) => SearchStep::Done(Some(c)),
            None => SearchStep::FetchNamed,
        }
    }

    /// `search_at` at the current time.
    pub fn search(&mut self, term: &String) -> (r: SearchStep)
        requires
            old(self).wf(),
        ensures
            final(self).wf(),
            exists|now: i64|
                final(self)@ == #[trigger] after_search(old(self)@, term@, now)
                && r@ == search_answer(old(self)@, term@, now),
    {
        let now: i64 = now_timestamp();
        self.search_at(term, now)
    }

    /// Second step of resolving a non-empty `term`, once the remote service
    /// answered `fetched` at time `now`: a found card goes through
    /// `get_or_insert`, so that every path converges on one record per name,
    /// and the term is written to the index under that record's id.
    pub fn complete_search_at(&mut self, term: &String, fetched: Option<NewCard>, now: i64)
        -> (r: Result<Option<Card>, CardError>)
        requires
            old(self).wf(),
        ensures
            final(self).wf(),
            (final(self)@, opt_result_view(r)) == complete_outcome(
                old(self)@,
                term@,
                fetched_view(fetched),
                now,
            ),
    {
        if term.as_str().is_empty() {
            return Ok(None);
        }
        match fetched {
            None => Ok(None),
            Some(raw) => {
                let card = match self.local.get_or_insert(raw) {
                    Ok(c) => c,
                    Err(e) => {
                        return Err(e);
                    },
                };
                self.lookups.insert(NewCardLookup::new(term.clone(), card.id), now);
                Ok(Some(card))
            },
        }
    }

    /// `complete_search_at` at the current time.
    pub fn complete_search(&mut self, term: &String, fetched: Option<NewCard>)
        -> (r: Result<Option<Card>, CardError>)
        requires
            old(self).wf(),
        ensures
            final(self).wf(),
            exists|now: i64|
                (final(self)@, opt_result_view(r)) == #[trigger] complete_outcome(
                    old(self)@,
                    term@,
                    fetched_view(fetched),
                    now,
                ),
    {
        let now: i64 = now_timestamp();
        self.complete_search_at(term, fetched, now)
    }

    /// Makes a card that the remote service drew at random canonical. The
    /// index is left alone, so that a random pick never becomes the answer to
    /// a search term.
    pub fn random(&mut self, fetched: NewCard) -> (r: Result<Card, CardError>)
        requires
            old(self).wf(),
        ensures
            final(self).wf(),
            (final(self)@, result_view(r)) == random_outcome(old(self)@, fetched@),
    {
        self.local.get_or_insert(fetched)
    }

    /// What to answer for completions of `term`: nothing, at once, for an
    /// empty term; otherwise whatever the remote service suggests for it.
    /// Neither table is read or written.
    pub fn suggestions(&self, term: &String) -> (r: SuggestionStep)
        ensures
            term@.len() == 0 ==> (r matches SuggestionStep::Ready(v) && v@.len() == 0),
            term@.len() > 0 ==> (r matches SuggestionStep::FetchAutocomplete(q) && q@ == term@),
    {
        if term.as_str().is_empty() {
            SuggestionStep::Ready(Vec::new())
        } else {
            SuggestionStep::FetchAutocomplete(term.clone())
        }
    }
}

} // verus!
