//! The channel through which a unit hands its definitions to the units built
//! on it: a store of publications, keyed by unit, and the import that reads
//! it and rejects disagreement.

use vstd::prelude::*;
use crate::definitions::{
    join, joined, find, lemma_disagreement_fails, lemma_joined_conflict, lemma_joined_values,
    DefSeq, Definitions, Failure, PropagationError,
};
use crate::text::views;

verus! {

/// What one unit has published.
#[derive(Clone, Debug, PartialEq, Eq)]
pub struct Publication {
    pub unit: String,
    pub definitions: Definitions,
}

/// The publications of a build session. Of two records of one unit the later
/// one counts.
#[derive(Clone, Debug, PartialEq, Eq)]
pub struct Store {
    pub records: Vec<Publication>,
}

/// The publications as a map from unit to definitions.
pub open spec fn store_map(records: Seq<Publication>) -> Map<Seq<char>, DefSeq>
    decreases records.len(),
{
    if records.len() == 0 {
        Map::empty()
    } else {
        store_map(records.drop_last()).insert(
            records.last().unit@,
            records.last().definitions@,
        )
    }
}

impl View for Store {
    type V = Map<Seq<char>, DefSeq>;

    open spec fn view(&self) -> Map<Seq<char>, DefSeq> {
        store_map(self.records@)
    }
}

/// Record `i` is the last one of `unit`.
pub open spec fn last_of(records: Seq<Publication>, unit: Seq<char>, i: int) -> bool {
    &&& 0 <= i < records.len()
    &&& records[i].unit@ == unit
    &&& forall|j: int| i < j < records.len() ==> records[j].unit@ != unit
}

/// The definitions that a unit gets from the units it is built on: their
/// publications joined in the order in which the units are listed. A unit
/// that has published nothing is a failure.
pub open spec fn imported(store: Map<Seq<char>, DefSeq>, upstream: Seq<Seq<char>>) -> Result<
    DefSeq,
    Failure,
>
    decreases upstream.len(),
{
    if upstream.len() == 0 {
        Ok(DefSeq::empty())
    } else {
        match imported(store, upstream.drop_last()) {
            Err(e) => Err(e),
            Ok(so_far) => if store.dom().contains(upstream.last()) {
                joined(so_far, store[upstream.last()])
            } else {
                Err(Failure::MissingPublication { unit: upstream.last() })
            },
        }
    }
}

/// What a unit works with and publishes in turn: what it imported, joined
/// with its own definitions.
pub open spec fn import_result(
    store: Map<Seq<char>, DefSeq>,
    upstream: Seq<Seq<char>>,
    local: DefSeq,
) -> Result<DefSeq, Failure> {
    match imported(store, upstream) {
        Err(e) => Err(e),
        Ok(all) => joined(all, local),
    }
}

proof fn lemma_store_last(records: Seq<Publication>, unit: Seq<char>, i: int)
    requires
        last_of(records, unit, i),
    ensures
        store_map(records).dom().contains(unit),
        store_map(records)[unit] == records[i].definitions@,
    decreases records.len(),
{
    if i < records.len() - 1 {
        lemma_store_last(records.drop_last(), unit, i);
    }
}

proof fn lemma_store_absent(records: Seq<Publication>, unit: Seq<char>)
    requires
        forall|j: int| 0 <= j < records.len() ==> records[j].unit@ != unit,
    ensures
        !store_map(records).dom().contains(unit),
    decreases records.len(),
{
    if records.len() > 0 {
        lemma_store_absent(records.drop_last(), unit);
    }
}

proof fn lemma_store_replace(records: Seq<Publication>, i: int, record: Publication)
    requires
        last_of(records, record.unit@, i),
    ensures
        store_map(records.update(i, record)) == store_map(records).insert(
            record.unit@,
            record.definitions@,
        ),
    decreases records.len(),
{
    let changed = records.update(i, record);
    let front = records.drop_last();
    if i == records.len() - 1 {
        assert(changed.drop_last() =~= front);
        assert(store_map(changed) =~= store_map(records).insert(
            record.unit@,
            record.definitions@,
        ));
    } else {
        assert(changed.drop_last() =~= front.update(i, record));
        lemma_store_replace(front, i, record);
        assert(store_map(changed) =~= store_map(records).insert(
            record.unit@,
            record.definitions@,
        ));
    }
}

proof fn lemma_imported_failure_stays(
    store: Map<Seq<char>, DefSeq>,
    upstream: Seq<Seq<char>>,
    n: int,
)
    requires
        0 <= n <= upstream.len(),
        imported(store, upstream.take(n)) is Err,
    ensures
        imported(store, upstream) == imported(store, upstream.take(n)),
    decreases upstream.len() - n,
{
    if n == upstream.len() {
        assert(upstream.take(n) =~= upstream);
    } else {
        assert(upstream.take(n + 1).drop_last() =~= upstream.take(n));
        lemma_imported_failure_stays(store, upstream, n + 1);
    }
}

/// An import from a single unit is its publication, joined onto nothing.
pub proof fn lemma_imported_one(store: Map<Seq<char>, DefSeq>, unit: Seq<char>)
    ensures
        imported(store, seq![unit]) == if store.dom().contains(unit) {
            joined(DefSeq::empty(), store[unit])
        } else {
            Err(Failure::MissingPublication { unit })
        },
{
    let one = seq![unit];
    assert(one.drop_last() =~= Seq::<Seq<char>>::empty());
    assert(imported(store, one.drop_last()) == Ok::<DefSeq, Failure>(DefSeq::empty()));
}

impl Store {
    /// A store in which no unit has published.
    pub fn new() -> (store: Store)
        ensures
            store@ == Map::<Seq<char>, DefSeq>::empty(),
    {
        Store { records: Vec::new() }
    }

    /// The place of the record that counts for `unit`.
    fn position(&self, unit: &String) -> (r: Option<usize>)
        ensures
            match r {
                Some(i) => last_of(self.records@, unit@, i as int),
                None => forall|j: int| 0 <= j < self.records.len() ==> self.records[j].unit@ != unit@,
            },
    {
        let mut i: usize = self.records.len();
        while i > 0
            invariant
                i <= self.records.len(),
                forall|j: int| i <= j < self.records.len() ==> self.records[j].unit@ != unit@,
            decreases i,
        {
            i -= 1;
            if self.records[i].unit == *unit {
                return Some(i);
            }
        }
        None
    }

    /// What `unit` has published, if it has.
    pub fn read(&self, unit: &String) -> (r: Option<&Definitions>)
        ensures
            match r {
                Some(d) => self@.dom().contains(unit@) && self@[unit@] == d@,
                None => !self@.dom().contains(unit@),
            },
    {
        match self.position(unit) {
            Some(i) => {
                proof {
                    lemma_store_last(self.records@, unit@, i as int);
                }
                Some(&self.records[i].definitions)
            },
            None => {
                proof {
                    lemma_store_absent(self.records@, unit@);
                }
                None
            },
        }
    }

    /// Publishes the definitions of `unit`, in place of what it had published
    /// before. The other units' publications stay, and publishing the same
    /// twice is publishing it once.
    pub fn publish(&mut self, unit: &String, definitions: &Definitions)
        ensures
            final(self)@ == old(self)@.insert(unit@, definitions@),
    {
        let record = Publication { unit: unit.clone(), definitions: definitions.copy() };
        match self.position(unit) {
            Some(i) => {
                proof {
                    lemma_store_replace(self.records@, i as int, record);
                }
                self.records.set(i, record);
            },
            None => {
                let ghost before = self.records@;
                self.records.push(record);
                assert(self.records@.drop_last() =~= before);
            },
        }
    }
}

/// Imports the definitions of the units in `upstream` from the store and
/// joins them with the unit's own. It fails with the first unit that has
/// published nothing, or with the first definition that disagrees with one
/// met before it; otherwise the result holds the imported definitions first
/// and then the unit's own, which is what the unit publishes in turn.
pub fn import(store: &Store, upstream: &Vec<String>, local: &Definitions) -> (r: Result<
    Definitions,
    PropagationError,
>)
    ensures
        match import_result(store@, views(upstream@), local@) {
            Ok(defs) => r matches Ok(d) && d@ == defs,
            Err(failure) => r matches Err(e) && e@ == failure,
        },
{
    let mut all = Definitions::new();
    let mut i: usize = 0;
    let ghost names = views(upstream@);
    assert(names.take(0) =~= Seq::<Seq<char>>::empty());
    while i < upstream.len()
        invariant
            i <= upstream.len(),
            names == views(upstream@),
            imported(store@, names.take(i as int)) == Ok::<DefSeq, Failure>(all@),
        decreases upstream.len() - i,
    {
        proof {
            assert(names.take(i + 1).drop_last() =~= names.take(i as int));
            assert(names.take(i + 1).last() == upstream@[i as int]@);
        }
        match store.read(&upstream[i]) {
            None => {
                proof {
                    lemma_imported_failure_stays(store@, names, i + 1);
                }
                return Err(PropagationError::MissingPublication { unit: upstream[i].clone() });
            },
            Some(published) => match join(&all, published) {
                Err(e) => {
                    proof {
                        lemma_imported_failure_stays(store@, names, i + 1);
                    }
                    return Err(e);
                },
                Ok(next) => {
                    all = next;
                },
            },
        }
        i += 1;
    }
    assert(names.take(upstream.len() as int) =~= names);
    join(&all, local)
}

/// Publishing is idempotent: a unit that publishes the same definitions
/// again leaves the store as it was after the first time.
pub proof fn lemma_publish_idempotent(store: Map<Seq<char>, DefSeq>, unit: Seq<char>, defs: DefSeq)
    ensures
        store.insert(unit, defs).insert(unit, defs) == store.insert(unit, defs),
{
    assert(store.insert(unit, defs).insert(unit, defs) =~= store.insert(unit, defs));
}

/// Publishing touches one unit only: what another unit has published stays.
pub proof fn lemma_publish_keeps_others(
    store: Map<Seq<char>, DefSeq>,
    unit: Seq<char>,
    defs: DefSeq,
    other: Seq<char>,
)
    requires
        other != unit,
    ensures
        store.insert(unit, defs).dom().contains(other) == store.dom().contains(other),
        store.dom().contains(other) ==> store.insert(unit, defs)[other] == store[other],
{
}

/// An import from one unit fails with a conflict where the unit's own
/// definitions give a name another value than the publication does.
pub proof fn lemma_import_rejects_disagreement(
    store: Map<Seq<char>, DefSeq>,
    upstream: Seq<char>,
    local: DefSeq,
    key: Seq<char>,
)
    requires
        store.dom().contains(upstream),
        find(store[upstream], key) is Some,
        find(local, key) is Some,
        find(store[upstream], key) != find(local, key),
    ensures
        import_result(store, seq![upstream], local) matches Err(
            Failure::Conflict { key: named, expected, actual },
        ) && expected != actual,
{
    let one = seq![upstream];
    lemma_imported_one(store, upstream);
    if imported(store, one) is Err {
        lemma_joined_conflict(DefSeq::empty(), store[upstream]);
    } else {
        let all = imported(store, one)->Ok_0;
        lemma_joined_values(DefSeq::empty(), store[upstream], key);
        lemma_disagreement_fails(all, local, key);
        lemma_joined_conflict(all, local);
    }
}

/// Where a unit's own definitions are the single entry `(key, actual)` and
/// what it imported gives `key` the value `expected`, the conflict names
/// exactly the key and the two values.
pub proof fn lemma_conflict_names_both(
    all: DefSeq,
    key: Seq<char>,
    expected: Option<Seq<char>>,
    actual: Option<Seq<char>>,
)
    requires
        find(all, key) == Some(expected),
        expected != actual,
    ensures
        joined(all, seq![(key, actual)]) == Err::<DefSeq, Failure>(
            Failure::Conflict { key, expected, actual },
        ),
{
    let one = seq![(key, actual)];
    assert(one.drop_last() =~= DefSeq::empty());
    assert(joined(all, one.drop_last()) == Ok::<DefSeq, Failure>(all));
}

/// The channel is transitive: a unit that imports from `first`, joins its own
/// definitions and publishes the result as `second` hands on both. Whoever
/// then imports from `second` alone sees every definition of `first` and of
/// `second`, each with its value.
pub proof fn lemma_republished_reaches_downstream(
    store: Map<Seq<char>, DefSeq>,
    first: Seq<char>,
    second: Seq<char>,
    own: DefSeq,
    local: DefSeq,
    key: Seq<char>,
)
    requires
        store.dom().contains(first),
        import_result(store, seq![first], own) is Ok,
        import_result(
            store.insert(second, import_result(store, seq![first], own)->Ok_0),
            seq![second],
            local,
        ) is Ok,
    ensures
        ({
            let republished = import_result(store, seq![first], own)->Ok_0;
            let seen = import_result(store.insert(second, republished), seq![second], local)->Ok_0;
            &&& find(store[first], key) is Some ==> find(seen, key) == find(store[first], key)
            &&& find(own, key) is Some ==> find(seen, key) == find(own, key)
        }),
{
    let republished = import_result(store, seq![first], own)->Ok_0;
    let later = store.insert(second, republished);
    lemma_imported_one(store, first);
    lemma_imported_one(later, second);
    let from_first = imported(store, seq![first])->Ok_0;
    let from_second = imported(later, seq![second])->Ok_0;
    lemma_joined_values(DefSeq::empty(), store[first], key);
    lemma_joined_values(from_first, own, key);
    lemma_joined_values(DefSeq::empty(), republished, key);
    lemma_joined_values(from_second, local, key);
}

} // verus!
