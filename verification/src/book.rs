//! The position book: one Value-at-Risk contribution per position identifier.
use vstd::prelude::*;
use crate::aggregate::{lemma_sum_empty, lemma_sum_insert, sum_of};

verus! {

/// One position of the book.
#[derive(Debug)]
struct Position {
    id: String,
    contribution: i64,
}

/// The identifier of the `i`-th entry, as a sequence of characters.
spec fn id_at(entries: Seq<Position>, i: int) -> Seq<char> {
    entries[i].id@
}

/// No identifier occurs in two entries.
spec fn ids_distinct(entries: Seq<Position>) -> bool {
    forall|i: int, j: int|
        0 <= i < j < entries.len() ==> #[trigger] id_at(entries, i) != #[trigger] id_at(entries, j)
}

/// Whether some entry carries the identifier `id`.
spec fn holds(entries: Seq<Position>, id: Seq<char>) -> bool {
    exists|i: int| 0 <= i < entries.len() && #[trigger] id_at(entries, i) == id
}

/// The index of an entry that carries `id`.
spec fn index_of(entries: Seq<Position>, id: Seq<char>) -> int {
    choose|i: int| 0 <= i < entries.len() && #[trigger] id_at(entries, i) == id
}

/// The map from identifier to contribution that the entries stand for.
spec fn entries_map(entries: Seq<Position>) -> Map<Seq<char>, int> {
    Map::new(
        |id: Seq<char>| holds(entries, id),
        |id: Seq<char>| entries[index_of(entries, id)].contribution as int,
    )
}

/// With distinct identifiers, each entry is found under its own identifier.
proof fn lemma_entry_found(entries: Seq<Position>, i: int)
    requires
        ids_distinct(entries),
        0 <= i < entries.len(),
    ensures
        entries_map(entries).contains_key(id_at(entries, i)),
        entries_map(entries)[id_at(entries, i)] == entries[i].contribution,
{
    // The entry chosen for this identifier can only be the `i`-th.
    let j = index_of(entries, id_at(entries, i));
    assert(j == i);
}

/// Appending an entry with a fresh identifier inserts it into the map.
proof fn lemma_push(entries: Seq<Position>, p: Position)
    requires
        ids_distinct(entries),
        !holds(entries, p.id@),
    ensures
        ids_distinct(entries.push(p)),
        entries_map(entries.push(p)) == entries_map(entries).insert(p.id@, p.contribution as int),
{
    let after = entries.push(p);
    let expected = entries_map(entries).insert(p.id@, p.contribution as int);
    assert forall|i: int, j: int| 0 <= i < j < after.len() implies #[trigger] id_at(after, i)
        != #[trigger] id_at(after, j) by {
        assert(id_at(after, i) == id_at(entries, i));
        if j < entries.len() {
            assert(id_at(after, j) == id_at(entries, j));
        }
    }
    assert forall|id: Seq<char>| #[trigger]
        entries_map(after).contains_key(id) implies expected.contains_key(id) by {
        let i = index_of(after, id);
        if i < entries.len() {
            assert(id_at(entries, i) == id);
        }
    }
    assert forall|id: Seq<char>| #[trigger] expected.contains_key(id) implies entries_map(
        after,
    ).contains_key(id) && entries_map(after)[id] == expected[id] by {
        if id == p.id@ {
            lemma_entry_found(after, entries.len() as int);
        } else {
            let i = index_of(entries, id);
            lemma_entry_found(after, i);
            lemma_entry_found(entries, i);
        }
    }
}

/// Replacing the contribution of the `i`-th entry overwrites its key in the map.
proof fn lemma_update(entries: Seq<Position>, i: int, p: Position)
    requires
        ids_distinct(entries),
        0 <= i < entries.len(),
        p.id@ == id_at(entries, i),
    ensures
        ids_distinct(entries.update(i, p)),
        entries_map(entries.update(i, p)) == entries_map(entries).insert(p.id@, p.contribution as int),
{
    let after = entries.update(i, p);
    let expected = entries_map(entries).insert(p.id@, p.contribution as int);
    assert forall|a: int| 0 <= a < after.len() implies #[trigger] id_at(after, a) == id_at(
        entries,
        a,
    ) by {}
    assert forall|id: Seq<char>| #[trigger] expected.contains_key(id) implies entries_map(
        after,
    ).contains_key(id) && entries_map(after)[id] == expected[id] by {
        if id == p.id@ {
            lemma_entry_found(after, i);
        } else {
            let a = index_of(entries, id);
            lemma_entry_found(after, a);
            lemma_entry_found(entries, a);
        }
    }
}

/// Taking out the `i`-th entry removes its key from the map.
proof fn lemma_remove(entries: Seq<Position>, i: int)
    requires
        ids_distinct(entries),
        0 <= i < entries.len(),
    ensures
        ids_distinct(entries.remove(i)),
        entries_map(entries.remove(i)) == entries_map(entries).remove(id_at(entries, i)),
{
    let after = entries.remove(i);
    let expected = entries_map(entries).remove(id_at(entries, i));
    assert forall|a: int| 0 <= a < after.len() implies #[trigger] id_at(after, a) == id_at(
        entries,
        if a < i {
            a
        } else {
            a + 1
        },
    ) by {}
    assert forall|id: Seq<char>| #[trigger] expected.contains_key(id) implies entries_map(
        after,
    ).contains_key(id) && entries_map(after)[id] == expected[id] by {
        let before = index_of(entries, id);
        let a = if before < i {
            before
        } else {
            before - 1
        };
        lemma_entry_found(after, a);
        lemma_entry_found(entries, before);
    }
}

/// The map of a sequence of entries has a finite domain.
proof fn lemma_map_finite(entries: Seq<Position>)
    ensures
        entries_map(entries).dom().finite(),
    decreases entries.len(),
{
    if entries.len() == 0 {
        assert(entries_map(entries).dom() =~= Set::<Seq<char>>::empty());
    } else {
        let front = entries.drop_last();
        let last = entries.last();
        lemma_map_finite(front);
        let grown = entries_map(front).dom().insert(last.id@);
        assert forall|id: Seq<char>| #[trigger]
            entries_map(entries).dom().contains(id) implies grown.contains(id) by {
            let i = index_of(entries, id);
            if i < front.len() {
                assert(id_at(front, i) == id);
            }
        }
        assert forall|id: Seq<char>| #[trigger] grown.contains(id) implies entries_map(
            entries,
        ).dom().contains(id) by {
            if id == last.id@ {
                assert(id_at(entries, entries.len() - 1) == id);
            } else {
                let i = index_of(front, id);
                assert(id_at(entries, i) == id);
            }
        }
        assert(entries_map(entries).dom() =~= grown);
    }
}

/// With distinct identifiers, the map has as many keys as there are entries.
proof fn lemma_map_len(entries: Seq<Position>)
    requires
        ids_distinct(entries),
    ensures
        entries_map(entries).dom().finite(),
        entries_map(entries).dom().len() == entries.len(),
    decreases entries.len(),
{
    lemma_map_finite(entries);
    if entries.len() == 0 {
        assert(entries_map(entries).dom() =~= Set::<Seq<char>>::empty());
    } else {
        let front = entries.drop_last();
        let last = entries.last();
        assert forall|i: int, j: int| 0 <= i < j < front.len() implies #[trigger] id_at(front, i)
            != #[trigger] id_at(front, j) by {
            assert(id_at(entries, i) != id_at(entries, j));
        }
        lemma_map_len(front);
        if holds(front, last.id@) {
            let i = index_of(front, last.id@);
            assert(id_at(entries, i) != id_at(entries, entries.len() - 1));
        }
        lemma_push(front, last);
        assert(front.push(last) =~= entries);
    }
}

/// One more entry of a sequence with distinct identifiers adds its
/// contribution to the sum of the map of the entries before it.
proof fn lemma_take_step(entries: Seq<Position>, i: int)
    requires
        ids_distinct(entries),
        0 <= i < entries.len(),
    ensures
        sum_of(entries_map(entries.take(i + 1))) == sum_of(entries_map(entries.take(i)))
            + entries[i].contribution,
{
    let front = entries.take(i);
    assert forall|a: int, b: int| 0 <= a < b < front.len() implies #[trigger] id_at(front, a)
        != #[trigger] id_at(front, b) by {
        assert(id_at(entries, a) != id_at(entries, b));
    }
    if holds(front, id_at(entries, i)) {
        let a = index_of(front, id_at(entries, i));
        assert(id_at(entries, a) != id_at(entries, i));
    }
    lemma_push(front, entries[i]);
    assert(front.push(entries[i]) =~= entries.take(i + 1));
    lemma_map_finite(front);
    lemma_sum_insert(entries_map(front), id_at(entries, i), entries[i].contribution as int);
}

/// A book of positions: each identifier carries one signed contribution.
///
/// Its view is the map from identifier to contribution. The entries are kept in
/// a vector in which no identifier occurs twice.
#[derive(Debug)]
pub struct PositionBook {
    entries: Vec<Position>,
}

impl View for PositionBook {
    type V = Map<Seq<char>, int>;

    closed spec fn view(&self) -> Map<Seq<char>, int> {
        entries_map(self.entries@)
    }
}

impl PositionBook {
    #[verifier::type_invariant]
    spec fn well_formed(&self) -> bool {
        ids_distinct(self.entries@)
    }

    /// Every book holds finitely many positions.
    pub proof fn lemma_finite(&self)
        ensures
            self@.dom().finite(),
    {
        lemma_map_finite(self.entries@);
    }

    /// The empty book.
    pub fn new() -> (book: Self)
        ensures
            book@ == Map::<Seq<char>, int>::empty(),
    {
        PositionBook { entries: Vec::new() }
    }

    /// Where the entry with identifier `id` stands, if there is one.
    fn find(&self, id: &String) -> (at: Option<usize>)
        ensures
            match at {
                Some(i) => i < self.entries@.len() && id_at(self.entries@, i as int) == id@,
                None => !holds(self.entries@, id@),
            },
    {
        let mut i: usize = 0;
        while i < self.entries.len()
            invariant
                i <= self.entries@.len(),
                forall|j: int| 0 <= j < i ==> #[trigger] id_at(self.entries@, j) != id@,
            decreases self.entries@.len() - i,
        {
            if self.entries[i].id == *id {
                return Some(i);
            }
            i += 1;
        }
        None
    }

    /// The contribution booked under `id`, if any.
    pub fn get(&self, id: &str) -> (found: Option<i64>)
        ensures
            match found {
                Some(c) => self@.contains_key(id@) && self@[id@] == c,
                None => !self@.contains_key(id@),
            },
    {
        let key = id.to_owned();
        proof {
            use_type_invariant(self);
        }
        match self.find(&key) {
            Some(i) => {
                proof {
                    lemma_entry_found(self.entries@, i as int);
                }
                Some(self.entries[i].contribution)
            },
            None => None,
        }
    }

    /// Books `contribution` under `id`, overwriting what was booked under it
    /// before, and returns the contribution that was overwritten.
    pub fn insert(&mut self, id: &str, contribution: i64) -> (previous: Option<i64>)
        ensures
            final(self)@ == old(self)@.insert(id@, contribution as int),
            match previous {
                Some(c) => old(self)@.contains_key(id@) && old(self)@[id@] == c,
                None => !old(self)@.contains_key(id@),
            },
    {
        let entry = Position { id: id.to_owned(), contribution };
        let at = self.find(&entry.id);
        proof {
            use_type_invariant(&*self);
        }
        let mut entries: Vec<Position> = Vec::new();
        std::mem::swap(&mut entries, &mut self.entries);
        let previous = match at {
            Some(i) => {
                proof {
                    lemma_entry_found(entries@, i as int);
                    lemma_update(entries@, i as int, entry);
                }
                let previous = entries[i].contribution;
                entries.set(i, entry);
                Some(previous)
            },
            None => {
                proof {
                    lemma_push(entries@, entry);
                }
                entries.push(entry);
                None
            },
        };
        self.entries = entries;
        previous
    }

    /// Takes `id` out of the book, if it is there, and returns the
    /// contribution that was booked under it.
    pub fn remove(&mut self, id: &str) -> (removed: Option<i64>)
        ensures
            final(self)@ == old(self)@.remove(id@),
            match removed {
                Some(c) => old(self)@.contains_key(id@) && old(self)@[id@] == c,
                None => !old(self)@.contains_key(id@),
            },
    {
        let key = id.to_owned();
        let at = self.find(&key);
        proof {
            use_type_invariant(&*self);
        }
        match at {
            Some(i) => {
                let mut entries: Vec<Position> = Vec::new();
                std::mem::swap(&mut entries, &mut self.entries);
                proof {
                    lemma_entry_found(entries@, i as int);
                    lemma_remove(entries@, i as int);
                }
                let entry = entries.remove(i);
                self.entries = entries;
                Some(entry.contribution)
            },
            None => None,
        }
    }

    /// The number of positions in the book.
    pub fn len(&self) -> (n: usize)
        ensures
            n == self@.dom().len(),
    {
        proof {
            use_type_invariant(self);
            lemma_map_len(self.entries@);
        }
        self.entries.len()
    }

    /// Whether the book holds no position.
    pub fn is_empty(&self) -> (empty: bool)
        ensures
            empty == (self@ == Map::<Seq<char>, int>::empty()),
    {
        proof {
            use_type_invariant(self);
            lemma_map_len(self.entries@);
            if self.entries@.len() == 0 {
                assert(self@ =~= Map::<Seq<char>, int>::empty());
            }
        }
        self.entries.len() == 0
    }

    /// The sum of all contributions in the book.
    pub fn total(&self) -> (sum: i128)
        ensures
            sum == sum_of(self@),
    {
        let mut sum: i128 = 0;
        let mut i: usize = 0;
        proof {
            use_type_invariant(self);
            assert(self.entries@.take(0) =~= Seq::<Position>::empty());
            assert(entries_map(Seq::<Position>::empty()) =~= Map::<Seq<char>, int>::empty());
            lemma_sum_empty::<Seq<char>>();
        }
        while i < self.entries.len()
            invariant
                i <= self.entries@.len(),
                ids_distinct(self.entries@),
                sum == sum_of(entries_map(self.entries@.take(i as int))),
                -(i * 0x8000_0000_0000_0000) <= sum <= i * 0x8000_0000_0000_0000,
            decreases self.entries@.len() - i,
        {
            let contribution = self.entries[i].contribution;
            proof {
                lemma_take_step(self.entries@, i as int);
                // The running sum of `i` contributions stays within `i` times the
                // size of the largest one, which fits whatever the length.
                assert(i * 0x8000_0000_0000_0000 + 0x8000_0000_0000_0000
                    <= 0x1_0000_0000_0000_0000 * 0x8000_0000_0000_0000) by (nonlinear_arith)
                    requires
                        i < 0x1_0000_0000_0000_0000,
                ;
            }
            sum = sum + contribution as i128;
            i += 1;
        }
        proof {
            assert(self.entries@.take(i as int) =~= self.entries@);
        }
        sum
    }
}

} // verus!
