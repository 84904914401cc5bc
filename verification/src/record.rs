//! Lists of records that are found by a key.

use vstd::prelude::*;

verus! {

/// A record with the key that it is found by.
pub trait Record: View {
    type Id;

    spec fn key(&self) -> Self::Id;

    /// Whether `id` is the record's key.
    fn has_key(&self, id: &Self::Id) -> (b: bool)
        ensures
            b == (self.key() == *id),
    ;
}

/// What a list of records says of each key: what the last record with that key holds.
pub open spec fn table<R: Record>(records: Seq<R>) -> Map<R::Id, R::V>
    decreases records.len(),
{
    if records.len() == 0 {
        Map::empty()
    } else {
        table(records.drop_last()).insert(records.last().key(), records.last()@)
    }
}

/// What a table holds comes from one of its records, and each record's key is in the table.
pub proof fn lemma_table<R: Record>(records: Seq<R>)
    ensures
        table(records).dom().finite(),
        forall|id: R::Id| #[trigger]
            table(records).contains_key(id) ==> exists|i: int|
                0 <= i < records.len() && (#[trigger] records[i]).key() == id && records[i]@
                    == table(records)[id],
        forall|i: int|
            0 <= i < records.len() ==> table(records).contains_key((#[trigger] records[i]).key()),
    decreases records.len(),
{
    if records.len() > 0 {
        let front = records.drop_last();
        lemma_table(front);
        assert forall|id: R::Id| #[trigger] table(records).contains_key(id) implies exists|i: int|
            0 <= i < records.len() && (#[trigger] records[i]).key() == id && records[i]@ == table(
                records,
            )[id] by {
            if id == records.last().key() {
                assert(records[records.len() - 1].key() == id);
            } else {
                assert(table(front).contains_key(id));
                let i = choose|i: int|
                    0 <= i < front.len() && (#[trigger] front[i]).key() == id && front[i]@ == table(
                        front,
                    )[id];
                assert(records[i].key() == id);
            }
        };
        assert forall|i: int| 0 <= i < records.len() implies table(records).contains_key(
            (#[trigger] records[i]).key(),
        ) by {
            if i < front.len() {
                assert(table(front).contains_key(front[i].key()));
            }
        };
    }
}

/// Finds the last record with the key `id`.
pub fn find<'a, R: Record>(records: &'a Vec<R>, id: &R::Id) -> (found: Option<&'a R>)
    ensures
        match found {
            Some(record) => table(records@).contains_key(*id) && table(records@)[*id] == record@
                && record.key() == *id && records@.contains(*record),
            None => !table(records@).contains_key(*id),
        },
{
    let mut n: usize = records.len();
    assert(records@.take(n as int) =~= records@);
    while n > 0
        invariant
            n <= records@.len(),
            table(records@).contains_key(*id) == table(records@.take(n as int)).contains_key(*id),
            table(records@).contains_key(*id) ==> table(records@)[*id] == table(
                records@.take(n as int),
            )[*id],
        decreases n,
    {
        assert(records@.take(n as int).drop_last() =~= records@.take(n - 1));
        assert(records@.take(n as int).last() == records@[n - 1]);
        if records[n - 1].has_key(id) {
            return Some(&records[n - 1]);
        }
        n = n - 1;
    }
    None
}

} // verus!
