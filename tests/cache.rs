use card_cache::card::{Card, CardError, NewCard};
use card_cache::local::LocalCardStorage;
use card_cache::lookup::{LocalCardLookup, NewCardLookup, STALE_AFTER_DAYS};
use card_cache::store::{after_suggestions, CardStore, SearchStep, SuggestionOutcome, SuggestionStep};
use card_cache::weather::{emoji_for_icon, same_text};

const DAY: i64 = 86400;

fn bolt() -> NewCard {
    NewCard {
        name: "Lightning Bolt".to_string(),
        type_line: "Instant".to_string(),
        mana_cost: Some("{R}".to_string()),
        oracle_text: Some("Lightning Bolt deals 3 damage to any target.".to_string()),
        flavor_text: None,
        image_uri: None,
    }
}

fn named(name: &str, type_line: &str) -> NewCard {
    NewCard {
        name: name.to_string(),
        type_line: type_line.to_string(),
        mana_cost: None,
        oracle_text: None,
        flavor_text: None,
        image_uri: None,
    }
}

fn done(step: SearchStep) -> Option<Card> {
    match step {
        SearchStep::Done(c) => c,
        SearchStep::FetchNamed => panic!("expected an answer from the index"),
    }
}

fn is_fetch(step: &SearchStep) -> bool {
    matches!(step, SearchStep::FetchNamed)
}

#[test]
fn get_or_insert_same_name_keeps_one_row() {
    let mut table = LocalCardStorage::new();
    let first = table.get_or_insert(named("Opt", "Instant")).unwrap();
    let second = table.get_or_insert(named("Opt", "Sorcery")).unwrap();
    assert_eq!(first.id, 1);
    assert_eq!(second.id, first.id);
    assert_eq!(second.type_line, "Instant");
    assert_eq!(table.len(), 1);
}

#[test]
fn get_or_insert_gives_ids_in_order() {
    let mut table = LocalCardStorage::new();
    let a = table.get_or_insert(named("Opt", "Instant")).unwrap();
    let b = table.get_or_insert(named("Shock", "Instant")).unwrap();
    assert_eq!((a.id, b.id), (1, 2));
    assert_eq!(table.get(2).unwrap().name, "Shock");
    assert_eq!(table.get_by_name(&"Opt".to_string()).unwrap().id, 1);
    assert!(table.get_by_name(&"Ponder".to_string()).is_none());
}

#[test]
fn get_unknown_id_is_not_found() {
    let mut table = LocalCardStorage::new();
    table.get_or_insert(named("Opt", "Instant")).unwrap();
    assert_eq!(table.get(0).unwrap_err(), CardError::NotFound);
    assert_eq!(table.get(2).unwrap_err(), CardError::NotFound);
    assert_eq!(table.get(-5).unwrap_err(), CardError::NotFound);
}

#[test]
fn search_then_search_again_skips_remote() {
    let mut store = CardStore::new();
    let term = "bolt".to_string();
    let now = 1_700_000_000;
    assert!(is_fetch(&store.search_at(&term, now)));
    let card = store.complete_search_at(&term, Some(bolt()), now).unwrap().unwrap();
    let again = done(store.search_at(&term, now + DAY)).unwrap();
    assert_eq!(again.id, card.id);
    assert_eq!(again.name, card.name);
}

#[test]
fn bolt_scenario() {
    let mut store = CardStore::new();
    let term = "bolt".to_string();
    let now = 1_700_000_000;
    assert!(is_fetch(&store.search_at(&term, now)));
    let card = store.complete_search_at(&term, Some(bolt()), now).unwrap().unwrap();
    assert_eq!(card.id, 1);
    assert_eq!(card.name, "Lightning Bolt");
    assert_eq!(card.type_line, "Instant");
    assert_eq!(store.cards().len(), 1);
    let entries = store.lookups().entries();
    assert_eq!(entries.len(), 1);
    assert_eq!(entries[0].search_term, "bolt");
    assert_eq!(entries[0].card_id, 1);
    assert_eq!(entries[0].last_updated, now);
    let again = done(store.search_at(&term, now)).unwrap();
    assert_eq!(again.id, 1);
    assert_eq!(again.name, "Lightning Bolt");
    assert_eq!(again.mana_cost, Some("{R}".to_string()));
}

#[test]
fn search_with_clock_converges() {
    let mut store = CardStore::new();
    let term = "bolt".to_string();
    assert!(is_fetch(&store.search(&term)));
    let card = store.complete_search(&term, Some(bolt())).unwrap().unwrap();
    let again = done(store.search(&term)).unwrap();
    assert_eq!(again.id, card.id);
}

#[test]
fn stale_entry_is_a_miss() {
    let mut store = CardStore::new();
    let term = "bolt".to_string();
    let now = 1_700_000_000;
    store.complete_search_at(&term, Some(bolt()), now).unwrap();
    let ttl = STALE_AFTER_DAYS * DAY;
    assert!(done(store.search_at(&term, now + ttl - 1)).is_some());
    assert!(is_fetch(&store.search_at(&term, now + ttl)));
    assert!(store.lookups().entries().is_empty());
    assert_eq!(store.cards().len(), 1);
}

#[test]
fn clear_drops_only_stale_entries() {
    let mut index = LocalCardLookup::new();
    let now = 1_700_000_000;
    index.insert(NewCardLookup::new("old".to_string(), 1), now - 30 * DAY);
    index.insert(NewCardLookup::new("recent".to_string(), 2), now - 30 * DAY + 1);
    index.clear(now);
    let entries = index.entries();
    assert_eq!(entries.len(), 1);
    assert_eq!(entries[0].search_term, "recent");
}

#[test]
fn insert_same_term_refreshes_entry() {
    let mut index = LocalCardLookup::new();
    index.insert(NewCardLookup::new("bolt".to_string(), 1), 100);
    index.insert(NewCardLookup::new("opt".to_string(), 2), 150);
    index.insert(NewCardLookup::new("bolt".to_string(), 3), 200);
    let entries = index.entries();
    assert_eq!(entries.len(), 2);
    assert_eq!(entries[0].search_term, "opt");
    assert_eq!(entries[1].search_term, "bolt");
    assert_eq!(entries[1].card_id, 3);
    assert_eq!(entries[1].last_updated, 200);
}

#[test]
fn query_joins_with_cards() {
    let mut cards = LocalCardStorage::new();
    let card = cards.get_or_insert(bolt()).unwrap();
    let mut index = LocalCardLookup::new();
    index.insert(NewCardLookup::new("bolt".to_string(), card.id), 10);
    index.insert(NewCardLookup::new("ghost".to_string(), 99), 10);
    assert_eq!(index.query(&"bolt".to_string(), 20, &cards).unwrap().id, 1);
    assert!(index.query(&"ghost".to_string(), 20, &cards).is_none());
    assert!(index.query(&"shock".to_string(), 20, &cards).is_none());
}

#[test]
fn empty_term_short_circuits() {
    let mut store = CardStore::new();
    assert!(done(store.search_at(&String::new(), 5)).is_none());
    assert!(store.complete_search_at(&String::new(), Some(bolt()), 5).unwrap().is_none());
    assert_eq!(store.cards().len(), 0);
    assert!(store.lookups().entries().is_empty());

    let cards = LocalCardStorage::new();
    let mut index = LocalCardLookup::new();
    index.insert(NewCardLookup::new(String::new(), 1), 0);
    assert!(index.query(&String::new(), 10 * 30 * DAY, &cards).is_none());
    assert_eq!(index.entries().len(), 1);
}

#[test]
fn remote_miss_gives_none_and_writes_nothing() {
    let mut store = CardStore::new();
    let term = "nonexistent".to_string();
    assert!(store.complete_search_at(&term, None, 7).unwrap().is_none());
    assert_eq!(store.cards().len(), 0);
    assert!(store.lookups().entries().is_empty());
}

#[test]
fn two_terms_share_one_record() {
    let mut store = CardStore::new();
    let a = store.complete_search_at(&"bolt".to_string(), Some(bolt()), 1).unwrap().unwrap();
    let b = store
        .complete_search_at(&"lightning bolt".to_string(), Some(bolt()), 2)
        .unwrap()
        .unwrap();
    assert_eq!(a.id, b.id);
    assert_eq!(store.cards().len(), 1);
    assert_eq!(store.lookups().entries().len(), 2);
}

#[test]
fn random_same_name_converges() {
    let mut store = CardStore::new();
    let first = store.random(named("Opt", "Instant")).unwrap();
    let second = store.random(named("Opt", "Instant")).unwrap();
    assert_eq!(first.id, second.id);
    assert_eq!(store.cards().len(), 1);
    assert!(store.lookups().entries().is_empty());
}

#[test]
fn suggestions_touch_nothing() {
    let mut store = CardStore::new();
    store.complete_search_at(&"bolt".to_string(), Some(bolt()), 1).unwrap();
    for _ in 0..3 {
        match store.suggestions(&"lightn".to_string()) {
            SuggestionStep::FetchAutocomplete(q) => assert_eq!(q, "lightn"),
            SuggestionStep::Ready(_) => panic!("expected a remote request"),
        }
        match store.suggestions(&String::new()) {
            SuggestionStep::Ready(v) => assert!(v.is_empty()),
            SuggestionStep::FetchAutocomplete(_) => panic!("empty term reached the remote"),
        }
    }
    assert_eq!(store.cards().len(), 1);
    assert_eq!(store.lookups().entries().len(), 1);
}

#[test]
fn emoji_for_known_icons() {
    assert_eq!(emoji_for_icon("01d"), ":sunny:");
    assert_eq!(emoji_for_icon("01n"), ":crescent_moon:");
    assert_eq!(emoji_for_icon("02d"), ":white_sun_cloud:");
    assert_eq!(emoji_for_icon("04n"), ":cloud:");
    assert_eq!(emoji_for_icon("10d"), ":cloud_rain:");
    assert_eq!(emoji_for_icon("11n"), ":cloud_lightning:");
    assert_eq!(emoji_for_icon("13d"), ":cloud_snow:");
    assert_eq!(emoji_for_icon("50n"), ":fog");
}

#[test]
fn same_text_compares_characters() {
    assert!(same_text("01d", "01d"));
    assert!(!same_text("01d", "01n"));
    assert!(!same_text("01d", "01"));
    assert!(same_text("", ""));
}

#[test]
fn no_suggestions_is_no_match() {
    assert!(matches!(after_suggestions(Vec::new()), SuggestionOutcome::NoMatch));
}

#[test]
fn single_suggestion_is_searched() {
    match after_suggestions(vec!["Lightning Bolt".to_string()]) {
        SuggestionOutcome::SearchFor(s) => assert_eq!(s, "Lightning Bolt"),
        _ => panic!("expected a search for the only suggestion"),
    }
}

#[test]
fn several_suggestions_are_offered_in_order() {
    let v = vec!["Lightning Bolt".to_string(), "Lightning Helix".to_string()];
    match after_suggestions(v.clone()) {
        SuggestionOutcome::Offer(w) => assert_eq!(w, v),
        _ => panic!("expected the suggestions to be offered"),
    }
}
