use vstd::prelude::*;

verus! {

/// The errors that resolving a card can end in.
#[derive(Clone, Copy, Debug, PartialEq, Eq, Structural)]
pub enum CardError {
    /// No canonical record has the requested id.
    NotFound,
    /// The remote lookup service could not be reached or answered badly.
    RemoteUnavailable,
    /// The canonical table could not take a new record.
    PersistenceFailure,
}

/// A card as fetched from the remote service, before the canonical table has
/// given it an id.
#[derive(Clone, Debug)]
pub struct NewCard {
    pub name: String,
    pub type_line: String,
    pub mana_cost: Option<String>,
    pub oracle_text: Option<String>,
    pub flavor_text: Option<String>,
    pub image_uri: Option<String>,
}

/// A canonical card record: a `NewCard` together with the id the table gave it.
#[derive(Clone, Debug)]
pub struct Card {
    pub id: i64,
    pub name: String,
    pub type_line: String,
    pub mana_cost: Option<String>,
    pub oracle_text: Option<String>,
    pub flavor_text: Option<String>,
    pub image_uri: Option<String>,
}

/// The contents of a card, without an id.
pub struct CardData {
    pub name: Seq<char>,
    pub type_line: Seq<char>,
    pub mana_cost: Option<Seq<char>>,
    pub oracle_text: Option<Seq<char>>,
    pub flavor_text: Option<Seq<char>>,
    pub image_uri: Option<Seq<char>>,
}

/// A canonical record as the tables see it.
pub struct CardView {
    pub id: i64,
    pub data: CardData,
}

/// The characters of an optional text field.
pub open spec fn opt_view(o: Option<String>) -> Option<Seq<char>> {
    match o {
        Some(s) => Some(s@),
        None => None,
    }
}

impl View for NewCard {
    type V = CardData;

    open spec fn view(&self) -> CardData {
        CardData {
            name: self.name@,
            type_line: self.type_line@,
            mana_cost: opt_view(self.mana_cost),
            oracle_text: opt_view(self.oracle_text),
            flavor_text: opt_view(self.flavor_text),
            image_uri: opt_view(self.image_uri),
        }
    }
}

impl View for Card {
    type V = CardView;

    open spec fn view(&self) -> CardView {
        CardView {
            id: self.id,
            data: CardData {
                name: self.name@,
                type_line: self.type_line@,
                mana_cost: opt_view(self.mana_cost),
                oracle_text: opt_view(self.oracle_text),
                flavor_text: opt_view(self.flavor_text),
                image_uri: opt_view(self.image_uri),
            },
        }
    }
}

fn copy_text(o: &Option<String>) -> (r: Option<String>)
    ensures
        opt_view(r) == opt_view(*o),
{
    match o {
        Some(s) => Some(s.clone()),
        None => None,
    }
}

impl NewCard {
    /// A copy of this card with the same contents.
    pub fn duplicate(&self) -> (r: NewCard)
        ensures
            r@ == self@,
    {
        NewCard {
            name: self.name.clone(),
            type_line: self.type_line.clone(),
            mana_cost: copy_text(&self.mana_cost),
            oracle_text: copy_text(&self.oracle_text),
            flavor_text: copy_text(&self.flavor_text),
            image_uri: copy_text(&self.image_uri),
        }
    }
}

impl Card {
    /// The record that `data` becomes once the table gives it `id`.
    pub fn with_id(id: i64, data: NewCard) -> (r: Card)
        ensures
            r@ == (CardView { id, data: data@ }),
    {
        Card {
            id,
            name: data.name,
            type_line: data.type_line,
            mana_cost: data.mana_cost,
            oracle_text: data.oracle_text,
            flavor_text: data.flavor_text,
            image_uri: data.image_uri,
        }
    }

    /// A copy of this record with the same id and contents.
    pub fn duplicate(&self) -> (r: Card)
        ensures
            r@ == self@,
    {
        Card {
            id: self.id,
            name: self.name.clone(),
            type_line: self.type_line.clone(),
            mana_cost: copy_text(&self.mana_cost),
            oracle_text: copy_text(&self.oracle_text),
            flavor_text: copy_text(&self.flavor_text),
            image_uri: copy_text(&self.image_uri),
        }
    }
}

} // verus!
