use vstd::prelude::*;

use crate::card::{Card, CardData, CardError, CardView, NewCard};

verus! {

/// The last row of `t` (the only one, in a well-formed table) named `name`.
pub open spec fn find_name(t: Seq<CardView>, name: Seq<char>) -> Option<CardView>
    decreases t.len(),
{
    if t.len() == 0 {
        None
    } else if t.last().data.name == name {
        Some(t.last())
    } else {
        find_name(t.drop_last(), name)
    }
}

/// The row of `t` with id `id`: ids are the positions `1..=t.len()`.
pub open spec fn card_with_id(t: Seq<CardView>, id: i64) -> Option<CardView> {
    if 1 <= id <= t.len() {
        Some(t[id - 1])
    } else {
        None
    }
}

/// Ids run from 1 in order of insertion, and no two rows share a name.
pub open spec fn table_wf(t: Seq<CardView>) -> bool {
    &&& forall|i: int| 0 <= i < t.len() ==> #[trigger] t[i].id == i + 1
    &&& forall|i: int, j: int|
        0 <= i < j < t.len() ==> #[trigger] t[i].data.name != #[trigger] t[j].data.name
}

/// The row that `data` becomes when appended to `t`.
pub open spec fn next_row(t: Seq<CardView>, data: CardData) -> CardView {
    CardView { id: (t.len() + 1) as i64, data }
}

/// What `get_or_insert` makes of table `t` and candidate `data`: the table
/// after the call and the record returned, or `None` where the table has no id
/// left to give.
pub open spec fn get_or_insert_outcome(t: Seq<CardView>, data: CardData) -> Option<(Seq<CardView>, CardView)> {
    match find_name(t, data.name) {
        Some(row) => Some((t, row)),
        None => if t.len() < i64::MAX {
            Some((t.push(next_row(t, data)), next_row(t, data)))
        } else {
            None
        },
    }
}

/// `find_name` finds a row exactly when one of the rows carries the name.
pub proof fn lemma_find_name(t: Seq<CardView>, name: Seq<char>)
    ensures
        find_name(t, name) is None <==> forall|i: int| 0 <= i < t.len() ==> t[i].data.name != name,
        find_name(t, name) matches Some(row) ==> exists|i: int|
            0 <= i < t.len() && t[i] == row && row.data.name == name,
    decreases t.len(),
{
    if t.len() > 0 {
        lemma_find_name(t.drop_last(), name);
        if t.last().data.name != name {
            assert forall|i: int| 0 <= i < t.len() - 1 implies t.drop_last()[i] == t[i] by {}
            if find_name(t.drop_last(), name) is None {
                assert forall|i: int| 0 <= i < t.len() implies t[i].data.name != name by {
                    if i < t.len() - 1 {
                        assert(t.drop_last()[i] == t[i]);
                    }
                }
            }
        }
    }
}

/// In a well-formed table the row found by name is the only row with that name.
pub proof fn lemma_find_name_unique(t: Seq<CardView>, name: Seq<char>, i: int)
    requires
        table_wf(t),
        0 <= i < t.len(),
        t[i].data.name == name,
    ensures
        find_name(t, name) == Some(t[i]),
{
    lemma_find_name(t, name);
    let row = find_name(t, name)->Some_0;
    let j: int = choose|j: int| 0 <= j < t.len() && t[j] == row && row.data.name == name;
    if i < j {
        assert(t[i].data.name != t[j].data.name);
    } else if j < i {
        assert(t[j].data.name != t[i].data.name);
    }
}

/// `get_or_insert` keeps a table well formed, and afterwards the table holds
/// the returned record under the candidate's name.
pub proof fn lemma_get_or_insert_wf(t: Seq<CardView>, data: CardData)
    requires
        table_wf(t),
        get_or_insert_outcome(t, data) is Some,
    ensures
        ({
            let (t1, row) = get_or_insert_outcome(t, data)->Some_0;
            &&& table_wf(t1)
            &&& row.data.name == data.name
            &&& find_name(t1, data.name) == Some(row)
            &&& card_with_id(t1, row.id) == Some(row)
        }),
{
    lemma_find_name(t, data.name);
    match find_name(t, data.name) {
        Some(row) => {
            let i: int = choose|i: int| 0 <= i < t.len() && t[i] == row && row.data.name == data.name;
            assert(t[i].id == i + 1);
        },
        None => {
            let t1 = t.push(next_row(t, data));
            assert(t1.drop_last() =~= t);
            assert forall|i: int, j: int| 0 <= i < j < t1.len() implies
                #[trigger] t1[i].data.name != #[trigger] t1[j].data.name by {
                if j == t.len() {
                    assert(t1[i] == t[i]);
                } else {
                    assert(t1[i] == t[i] && t1[j] == t[j]);
                }
            }
            assert forall|i: int| 0 <= i < t1.len() implies #[trigger] t1[i].id == i + 1 by {
                if i < t.len() {
                    assert(t1[i] == t[i]);
                }
            }
        },
    }
}

/// Two candidates that share a name, handed to `get_or_insert` one after the
/// other, leave exactly one row with that name, and both calls return the same
/// record: the second call changes nothing.
pub proof fn lemma_get_or_insert_idempotent(t: Seq<CardView>, a: CardData, b: CardData)
    requires
        table_wf(t),
        a.name == b.name,
        get_or_insert_outcome(t, a) is Some,
    ensures
        ({
            let (t1, first) = get_or_insert_outcome(t, a)->Some_0;
            &&& get_or_insert_outcome(t1, b) == Some((t1, first))
            &&& exists|i: int| 0 <= i < t1.len() && #[trigger] t1[i].data.name == a.name
                && forall|j: int| 0 <= j < t1.len() && #[trigger] t1[j].data.name == a.name ==> j == i
        }),
{
    lemma_get_or_insert_wf(t, a);
    let (t1, first) = get_or_insert_outcome(t, a)->Some_0;
    lemma_find_name(t1, a.name);
    let i: int = choose|i: int| 0 <= i < t1.len() && t1[i] == first && first.data.name == a.name;
    assert forall|j: int| 0 <= j < t1.len() && #[trigger] t1[j].data.name == a.name implies j == i by {
        if j != i {
            if j < i {
                assert(t1[j].data.name != t1[i].data.name);
            } else {
                assert(t1[i].data.name != t1[j].data.name);
            }
        }
    }
}

/// The canonical table: card records, at most one per name, with ids given
/// in order of insertion starting from 1.
pub struct LocalCardStorage {
    cards: Vec<Card>,
}

impl View for LocalCardStorage {
    type V = Seq<CardView>;

    closed spec fn view(&self) -> Seq<CardView> {
        self.cards@.map_values(|c: Card| c@)
    }
}

impl LocalCardStorage {
    /// Holds of every table that `new` and `get_or_insert` produce.
    pub open spec fn wf(&self) -> bool {
        table_wf(self@)
    }

    /// An empty table.
    pub fn new() -> (r: LocalCardStorage)
        ensures
            r@ == Seq::<CardView>::empty(),
            r.wf(),
    {
        let r = LocalCardStorage { cards: Vec::new() };
        assert(r@ =~= Seq::<CardView>::empty());
        r
    }

    /// The number of records.
    pub fn len(&self) -> (r: usize)
        ensures
            r == self@.len(),
    {
        self.cards.len()
    }

    /// The record with the given id, or `NotFound`.
    pub fn get(&self, id: i64) -> (r: Result<Card, CardError>)
        ensures
            match card_with_id(self@, id) {
                Some(row) => r matches Ok(c) && c@ == row,
                None => r == Err::<Card, CardError>(CardError::NotFound),
            },
    {
        if 1 <= id && id as u64 <= self.cards.len() as u64 {
            let c = self.cards[(id - 1) as usize].duplicate();
            Ok(c)
        } else {
            Err(CardError::NotFound)
        }
    }

    /// The record named `name`, if there is one.
    pub fn get_by_name(&self, name: &String) -> (r: Option<Card>)
        ensures
            match find_name(self@, name@) {
                Some(row) => r matches Some(c) && c@ == row,
                None => r is None,
            },
    {
        let mut i: usize = self.cards.len();
        assert(self@.subrange(0, i as int) =~= self@);
        while i > 0
            invariant
                i <= self.cards.len(),
                find_name(self@, name@) == find_name(self@.subrange(0, i as int), name@),
            decreases i,
        {
            let ghost prefix = self@.subrange(0, i as int);
            assert(prefix.drop_last() =~= self@.subrange(0, i - 1));
            if self.cards[i - 1].name == *name {
                return Some(self.cards[i - 1].duplicate());
            }
            i = i - 1;
        }
        None
    }

    /// Returns the record named like `card` if one exists, unchanged (the
    /// candidate's other fields are dropped); otherwise appends `card` under
    /// the next id and returns the new record. Fails, changing nothing, only
    /// where no id is left to give.
    pub fn get_or_insert(&mut self, card: NewCard) -> (r: Result<Card, CardError>)
        requires
            old(self).wf(),
        ensures
            final(self).wf(),
            match get_or_insert_outcome(old(self)@, card@) {
                Some((t, row)) => final(self)@ == t && (r matches Ok(c) && c@ == row),
                None => final(self)@ == old(self)@
                    && r == Err::<Card, CardError>(CardError::PersistenceFailure),
            },
    {
        assert(self@.subrange(0, self@.len() as int) =~= self@);
        if let Some(existing) = self.get_by_name(&card.name) {
            return Ok(existing);
        }
        let n: usize = self.cards.len();
        if n as u64 >= i64::MAX as u64 {
            return Err(CardError::PersistenceFailure);
        }
        let id: i64 = n as i64 + 1;
        let row = Card::with_id(id, card.duplicate());
        let ghost t = self@;
        proof {
            lemma_find_name(t, card@.name);
            lemma_get_or_insert_wf(t, card@);
        }
        self.cards.push(row.duplicate());
        assert(self@ =~= t.push(next_row(t, card@)));
        Ok(row)
    }
}

} // verus!
