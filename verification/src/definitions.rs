//! ABI-affecting definitions and how two sets of them are joined.

use vstd::prelude::*;

verus! {

/// A list of definitions as plain values: each a name and its value, which
/// may be absent.
pub type DefSeq = Seq<(Seq<char>, Option<Seq<char>>)>;

/// One definition: a name and, where it has one, its value.
#[derive(Clone, Debug, PartialEq, Eq)]
pub struct Definition {
    pub key: String,
    pub value: Option<String>,
}

/// An ordered list of definitions.
#[derive(Clone, Debug, PartialEq, Eq)]
pub struct Definitions {
    pub entries: Vec<Definition>,
}

/// Why definitions could not be brought together.
#[derive(Clone, Debug, PartialEq, Eq)]
pub enum PropagationError {
    /// A unit that is depended on has published nothing.
    MissingPublication { unit: String },
    /// Two units disagree on `key`: `expected` came first, `actual` after it.
    Conflict { key: String, expected: Option<String>, actual: Option<String> },
}

/// A `PropagationError` as plain values.
pub enum Failure {
    MissingPublication { unit: Seq<char> },
    Conflict { key: Seq<char>, expected: Option<Seq<char>>, actual: Option<Seq<char>> },
}

/// The text of an optional value.
pub open spec fn value_text(value: Option<String>) -> Option<Seq<char>> {
    match value {
        Some(v) => Some(v@),
        None => None,
    }
}

impl View for Definition {
    type V = (Seq<char>, Option<Seq<char>>);

    open spec fn view(&self) -> Self::V {
        (self.key@, value_text(self.value))
    }
}

impl View for Definitions {
    type V = DefSeq;

    open spec fn view(&self) -> DefSeq {
        self.entries@.map_values(|d: Definition| d@)
    }
}

impl View for PropagationError {
    type V = Failure;

    open spec fn view(&self) -> Failure {
        match *self {
            PropagationError::MissingPublication { unit } => Failure::MissingPublication {
                unit: unit@,
            },
            PropagationError::Conflict { key, expected, actual } => Failure::Conflict {
                key: key@,
                expected: value_text(expected),
                actual: value_text(actual),
            },
        }
    }
}

/// The value under `key`: that of the first entry with this name.
pub open spec fn find(defs: DefSeq, key: Seq<char>) -> Option<Option<Seq<char>>>
    decreases defs.len(),
{
    if defs.len() == 0 {
        None
    } else if defs[0].0 == key {
        Some(defs[0].1)
    } else {
        find(defs.drop_first(), key)
    }
}

/// No name is defined twice.
pub open spec fn distinct_keys(defs: DefSeq) -> bool {
    forall|i: int, j: int| 0 <= i < j < defs.len() ==> defs[i].0 != defs[j].0
}

/// `defs` with one more entry: appended if its name is new, nothing changed if
/// the name is there with the same value, a conflict if it is there with
/// another value.
pub open spec fn added(defs: DefSeq, entry: (Seq<char>, Option<Seq<char>>)) -> Result<
    DefSeq,
    Failure,
> {
    match find(defs, entry.0) {
        None => Ok(defs.push(entry)),
        Some(v) => if v == entry.1 {
            Ok(defs)
        } else {
            Err(Failure::Conflict { key: entry.0, expected: v, actual: entry.1 })
        },
    }
}

/// `base` joined with `extra`: the entries of `extra` added one by one, up to
/// the first conflict.
pub open spec fn joined(base: DefSeq, extra: DefSeq) -> Result<DefSeq, Failure>
    decreases extra.len(),
{
    if extra.len() == 0 {
        Ok(base)
    } else {
        match joined(base, extra.drop_last()) {
            Err(e) => Err(e),
            Ok(so_far) => added(so_far, extra.last()),
        }
    }
}

/// What `find` gives after one more entry.
pub proof fn lemma_find_push(defs: DefSeq, entry: (Seq<char>, Option<Seq<char>>), key: Seq<char>)
    ensures
        find(defs.push(entry), key) == if find(defs, key) is Some {
            find(defs, key)
        } else if entry.0 == key {
            Some(entry.1)
        } else {
            None
        },
    decreases defs.len(),
{
    if defs.len() == 0 {
        assert(defs.push(entry).drop_first() =~= defs);
    } else {
        assert(defs.push(entry).drop_first() =~= defs.drop_first().push(entry));
        lemma_find_push(defs.drop_first(), entry, key);
    }
}

/// `find` gives a value exactly for the names that occur, and the value is
/// that of an entry.
pub proof fn lemma_find_occurs(defs: DefSeq, key: Seq<char>)
    ensures
        find(defs, key) is Some <==> exists|i: int| 0 <= i < defs.len() && #[trigger] defs[i].0 == key,
        find(defs, key) matches Some(v) ==> exists|i: int|
            0 <= i < defs.len() && #[trigger] defs[i] == (key, v),
    decreases defs.len(),
{
    if defs.len() > 0 {
        let rest = defs.drop_first();
        lemma_find_occurs(rest, key);
        if defs[0].0 == key {
            assert(defs[0] == (key, defs[0].1));
        } else {
            if find(rest, key) is Some {
                let i = choose|i: int| 0 <= i < rest.len() && #[trigger] rest[i].0 == key;
                assert(defs[i + 1].0 == key);
                let v = find(rest, key)->Some_0;
                let j = choose|j: int| 0 <= j < rest.len() && #[trigger] rest[j] == (key, v);
                assert(defs[j + 1] == (key, v));
            }
            if exists|i: int| 0 <= i < defs.len() && #[trigger] defs[i].0 == key {
                let i = choose|i: int| 0 <= i < defs.len() && #[trigger] defs[i].0 == key;
                assert(rest[i - 1].0 == key);
            }
        }
    }
}

/// A failure, once met, is the result whatever follows.
pub proof fn lemma_joined_failure_stays(base: DefSeq, extra: DefSeq, n: int)
    requires
        0 <= n <= extra.len(),
        joined(base, extra.take(n)) is Err,
    ensures
        joined(base, extra) == joined(base, extra.take(n)),
    decreases extra.len() - n,
{
    if n == extra.len() {
        assert(extra.take(n) =~= extra);
    } else {
        assert(extra.take(n + 1).drop_last() =~= extra.take(n));
        lemma_joined_failure_stays(base, extra, n + 1);
    }
}

/// The law of a successful join: every name keeps the value that `base`
/// gives it, and a name that `base` lacks has the value that `extra` gives it.
pub proof fn lemma_joined_values(base: DefSeq, extra: DefSeq, key: Seq<char>)
    requires
        joined(base, extra) is Ok,
    ensures
        find(joined(base, extra)->Ok_0, key) == if find(base, key) is Some {
            find(base, key)
        } else {
            find(extra, key)
        },
        find(base, key) is Some && find(extra, key) is Some ==> find(base, key) == find(extra, key),
    decreases extra.len(),
{
    if extra.len() > 0 {
        let front = extra.drop_last();
        let last = extra.last();
        let so_far = joined(base, front)->Ok_0;
        lemma_joined_values(base, front, key);
        lemma_joined_values(base, front, last.0);
        lemma_find_push(front, last, key);
        assert(front.push(last) =~= extra);
        lemma_find_push(so_far, last, key);
    }
}

/// The law of a failed join: it names a key to which the two sides, or two
/// entries of `extra`, give different values, the earlier one as expected and
/// the later one as actual.
pub proof fn lemma_joined_conflict(base: DefSeq, extra: DefSeq)
    requires
        joined(base, extra) is Err,
    ensures
        joined(base, extra)->Err_0 matches Failure::Conflict { key, expected, actual } && expected
            != actual && (find(base, key) == Some(expected) || exists|i: int|
            0 <= i < extra.len() && #[trigger] extra[i] == (key, expected)) && exists|j: int|
            0 <= j < extra.len() && #[trigger] extra[j] == (key, actual),
    decreases extra.len(),
{
    let front = extra.drop_last();
    let last = extra.last();
    if joined(base, front) is Err {
        lemma_joined_conflict(base, front);
        let f = joined(base, front)->Err_0;
        match f {
            Failure::Conflict { key, expected, actual } => {
                let j = choose|j: int| 0 <= j < front.len() && #[trigger] front[j] == (key, actual);
                assert(extra[j] == (key, actual));
                if find(base, key) != Some(expected) {
                    let i = choose|i: int|
                        0 <= i < front.len() && #[trigger] front[i] == (key, expected);
                    assert(extra[i] == (key, expected));
                }
            },
            _ => {},
        }
    } else {
        let so_far = joined(base, front)->Ok_0;
        let v = find(so_far, last.0)->Some_0;
        lemma_joined_values(base, front, last.0);
        assert(extra[extra.len() - 1] == (last.0, last.1));
        if find(base, last.0) is None {
            lemma_find_occurs(front, last.0);
            let i = choose|i: int| 0 <= i < front.len() && #[trigger] front[i] == (last.0, v);
            assert(extra[i] == (last.0, v));
        }
    }
}

/// Where the two sides give one name different values, the join fails.
pub proof fn lemma_disagreement_fails(base: DefSeq, extra: DefSeq, key: Seq<char>)
    requires
        find(base, key) is Some,
        find(extra, key) is Some,
        find(base, key) != find(extra, key),
    ensures
        joined(base, extra) is Err,
{
    if joined(base, extra) is Ok {
        lemma_joined_values(base, extra, key);
    }
}

/// A join of lists without repeated names has none either.
pub proof fn lemma_joined_distinct(base: DefSeq, extra: DefSeq)
    requires
        distinct_keys(base),
        joined(base, extra) is Ok,
    ensures
        distinct_keys(joined(base, extra)->Ok_0),
    decreases extra.len(),
{
    if extra.len() > 0 {
        let front = extra.drop_last();
        let last = extra.last();
        lemma_joined_distinct(base, front);
        let so_far = joined(base, front)->Ok_0;
        lemma_find_occurs(so_far, last.0);
    }
}

/// A copy of an optional value.
pub fn copy_value(value: &Option<String>) -> (c: Option<String>)
    ensures
        value_text(c) == value_text(*value),
{
    match value {
        Some(v) => Some(v.clone()),
        None => None,
    }
}

/// Whether two optional values are the same text, or both absent.
pub fn same_value(a: &Option<String>, b: &Option<String>) -> (same: bool)
    ensures
        same == (value_text(*a) == value_text(*b)),
{
    match (a, b) {
        (Some(x), Some(y)) => *x == *y,
        (None, None) => true,
        _ => false,
    }
}

impl Definition {
    /// A definition of `key` as `value`.
    pub fn new(key: &str, value: Option<&str>) -> (d: Definition)
        ensures
            d@ == (
                key@,
                match value {
                    Some(v) => Some(v@),
                    None => None,
                },
            ),
    {
        Definition {
            key: key.to_owned(),
            value: match value {
                Some(v) => Some(v.to_owned()),
                None => None,
            },
        }
    }

    /// A copy of this definition.
    pub fn copy(&self) -> (c: Definition)
        ensures
            c@ == self@,
    {
        Definition { key: self.key.clone(), value: copy_value(&self.value) }
    }
}

impl Definitions {
    /// No definitions.
    pub fn new() -> (d: Definitions)
        ensures
            d@ == DefSeq::empty(),
    {
        let d = Definitions { entries: Vec::new() };
        assert(d@ =~= DefSeq::empty());
        d
    }

    /// A copy of these definitions.
    pub fn copy(&self) -> (c: Definitions)
        ensures
            c@ == self@,
    {
        let mut entries: Vec<Definition> = Vec::new();
        let mut i: usize = 0;
        while i < self.entries.len()
            invariant
                i <= self.entries.len(),
                entries@.len() == i,
                forall|k: int| 0 <= k < i ==> entries@[k]@ == self.entries@[k]@,
            decreases self.entries.len() - i,
        {
            entries.push(self.entries[i].copy());
            i += 1;
        }
        let c = Definitions { entries };
        assert(c@ =~= self@);
        c
    }

    /// The value under `key`, if the name is defined.
    pub fn get(&self, key: &String) -> (r: Option<&Option<String>>)
        ensures
            match find(self@, key@) {
                Some(v) => r matches Some(x) && value_text(*x) == v,
                None => r is None,
            },
    {
        let mut i: usize = 0;
        assert(self@.skip(0) =~= self@);
        while i < self.entries.len()
            invariant
                i <= self.entries.len(),
                find(self@, key@) == find(self@.skip(i as int), key@),
            decreases self.entries.len() - i,
        {
            assert(self@.skip(i as int)[0] == self.entries@[i as int]@);
            if self.entries[i].key == *key {
                return Some(&self.entries[i].value);
            }
            assert(self@.skip(i as int).drop_first() =~= self@.skip(i + 1));
            i += 1;
        }
        None
    }

    /// Adds one definition. A name that is there with the same value changes
    /// nothing; one that is there with another value is a conflict, and
    /// nothing changes either.
    pub fn define(&mut self, entry: &Definition) -> (r: Result<(), PropagationError>)
        ensures
            match added(old(self)@, entry@) {
                Ok(defs) => r is Ok && final(self)@ == defs,
                Err(failure) => r matches Err(e) && e@ == failure && final(self)@ == old(self)@,
            },
    {
        match self.get(&entry.key) {
            None => {
                let ghost before = self@;
                self.entries.push(entry.copy());
                assert(self@ =~= before.push(entry@));
                Ok(())
            },
            Some(present) => {
                if same_value(present, &entry.value) {
                    Ok(())
                } else {
                    Err(
                        PropagationError::Conflict {
                            key: entry.key.clone(),
                            expected: copy_value(present),
                            actual: copy_value(&entry.value),
                        },
                    )
                }
            },
        }
    }
}

/// Joins `extra` onto `base`: the union of the two where they agree, with the
/// entries of `base` first, and the first conflict where they do not.
pub fn join(base: &Definitions, extra: &Definitions) -> (r: Result<Definitions, PropagationError>)
    ensures
        match joined(base@, extra@) {
            Ok(defs) => r matches Ok(d) && d@ == defs,
            Err(failure) => r matches Err(e) && e@ == failure,
        },
{
    let mut out = base.copy();
    let mut i: usize = 0;
    assert(extra@.take(0) =~= DefSeq::empty());
    while i < extra.entries.len()
        invariant
            i <= extra.entries.len(),
            joined(base@, extra@.take(i as int)) == Ok::<DefSeq, Failure>(out@),
        decreases extra.entries.len() - i,
    {
        proof {
            assert(extra@.take(i + 1).drop_last() =~= extra@.take(i as int));
            assert(extra@.take(i + 1).last() == extra.entries@[i as int]@);
        }
        match out.define(&extra.entries[i]) {
            Ok(()) => {},
            Err(e) => {
                proof {
                    lemma_joined_failure_stays(base@, extra@, i + 1);
                }
                return Err(e);
            },
        }
        i += 1;
    }
    assert(extra@.take(extra.entries.len() as int) =~= extra@);
    Ok(out)
}

} // verus!
