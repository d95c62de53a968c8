//! The text in which a unit's definitions are kept in the durable store: one
//! line per definition, the name alone or the name, `=` and the value.

use vstd::prelude::*;
use crate::definitions::{DefSeq, Definition, Definitions};
use crate::staging::{confined, is_confined};

verus! {

/// Where `c` first occurs in `s`, or the length of `s` if it does not.
pub open spec fn index_of(s: Seq<char>, c: char) -> nat
    decreases s.len(),
{
    if s.len() == 0 {
        0
    } else if s[0] == c {
        0
    } else {
        1 + index_of(s.drop_first(), c)
    }
}

/// `c` does not occur in `s`.
pub open spec fn lacks(s: Seq<char>, c: char) -> bool {
    forall|i: int| 0 <= i < s.len() ==> s[i] != c
}

/// A definition that a line can hold: no line break in it, and no `=` in
/// its name.
pub open spec fn entry_encodable(entry: (Seq<char>, Option<Seq<char>>)) -> bool {
    &&& lacks(entry.0, '\n')
    &&& lacks(entry.0, '=')
    &&& entry.1 matches Some(v) ==> lacks(v, '\n')
}

/// Every definition of the list can be held by a line.
pub open spec fn encodable(defs: DefSeq) -> bool {
    forall|i: int| 0 <= i < defs.len() ==> entry_encodable(#[trigger] defs[i])
}

/// The line of a definition, without its line break.
pub open spec fn line_text(entry: (Seq<char>, Option<Seq<char>>)) -> Seq<char> {
    match entry.1 {
        Some(v) => entry.0 + seq!['='] + v,
        None => entry.0,
    }
}

/// The text of a list of definitions: their lines in order, each ended by a
/// line break.
pub open spec fn encoded(defs: DefSeq) -> Seq<char>
    decreases defs.len(),
{
    if defs.len() == 0 {
        Seq::empty()
    } else {
        line_text(defs[0]) + seq!['\n'] + encoded(defs.drop_first())
    }
}

/// The definition that a line holds: what stands before the first `=` is the
/// name, what follows it the value; without `=` the line is a name alone.
pub open spec fn parse_line(line: Seq<char>) -> (Seq<char>, Option<Seq<char>>) {
    let at = index_of(line, '=');
    if at == line.len() {
        (line, None)
    } else {
        (line.take(at as int), Some(line.skip(at as int + 1)))
    }
}

/// The definitions that a text holds, line by line. A text whose last line
/// is not ended by a line break holds none: it was cut short.
pub open spec fn parsed(text: Seq<char>) -> Option<DefSeq>
    decreases text.len(),
{
    if text.len() == 0 {
        Some(DefSeq::empty())
    } else {
        let end = index_of(text, '\n');
        if end >= text.len() {
            None
        } else {
            match parsed(text.skip(end as int + 1)) {
                None => None,
                Some(rest) => Some(seq![parse_line(text.take(end as int))] + rest),
            }
        }
    }
}

/// `done`, followed by what the rest of a text holds.
pub open spec fn followed(done: DefSeq, rest: Option<DefSeq>) -> Option<DefSeq> {
    match rest {
        None => None,
        Some(r) => Some(done + r),
    }
}

/// `index_of` is the place before which `c` does not occur and at which it
/// does, or the end.
pub proof fn lemma_index_of(s: Seq<char>, c: char, at: int)
    requires
        0 <= at <= s.len(),
        forall|k: int| 0 <= k < at ==> s[k] != c,
        at < s.len() ==> s[at] == c,
    ensures
        index_of(s, c) == at,
    decreases s.len(),
{
    if s.len() > 0 && at > 0 {
        lemma_index_of(s.drop_first(), c, at - 1);
    }
}

/// The text of a list with one more definition at its end.
pub proof fn lemma_encoded_push(defs: DefSeq, entry: (Seq<char>, Option<Seq<char>>))
    ensures
        encoded(defs.push(entry)) == encoded(defs) + line_text(entry) + seq!['\n'],
    decreases defs.len(),
{
    if defs.len() == 0 {
        assert(defs.push(entry).drop_first() =~= DefSeq::empty());
        assert(encoded(DefSeq::empty()) =~= Seq::<char>::empty());
        assert(encoded(defs) =~= Seq::<char>::empty());
        assert(defs.push(entry)[0] == entry);
        assert(encoded(defs.push(entry)) =~= encoded(defs) + line_text(entry) + seq!['\n']);
    } else {
        assert(defs.push(entry).drop_first() =~= defs.drop_first().push(entry));
        assert(defs.push(entry)[0] == defs[0]);
        lemma_encoded_push(defs.drop_first(), entry);
        assert(encoded(defs.push(entry)) =~= encoded(defs) + line_text(entry) + seq!['\n']);
    }
}

/// A line that was written for a definition is read as that definition.
pub proof fn lemma_line_round_trip(entry: (Seq<char>, Option<Seq<char>>))
    requires
        entry_encodable(entry),
    ensures
        parse_line(line_text(entry)) == entry,
        lacks(line_text(entry), '\n'),
{
    let line = line_text(entry);
    match entry.1 {
        Some(v) => {
            lemma_index_of(line, '=', entry.0.len() as int);
            assert(line.take(entry.0.len() as int) =~= entry.0);
            assert(line.skip(entry.0.len() as int + 1) =~= v);
        },
        None => {
            lemma_index_of(line, '=', line.len() as int);
        },
    }
}

/// What is written is read back: the text of a list of definitions that
/// lines can hold is parsed as that list.
pub proof fn lemma_round_trip(defs: DefSeq)
    requires
        encodable(defs),
    ensures
        parsed(encoded(defs)) == Some(defs),
    decreases defs.len(),
{
    if defs.len() > 0 {
        let line = line_text(defs[0]);
        let rest = encoded(defs.drop_first());
        let text = encoded(defs);
        lemma_line_round_trip(defs[0]);
        lemma_index_of(text, '\n', line.len() as int);
        assert(text.take(line.len() as int) =~= line);
        assert(text.skip(line.len() as int + 1) =~= rest);
        assert(encodable(defs.drop_first())) by {
            assert forall|i: int| 0 <= i < defs.drop_first().len() implies entry_encodable(
                #[trigger] defs.drop_first()[i],
            ) by {
                assert(defs.drop_first()[i] == defs[i + 1]);
            }
        }
        lemma_round_trip(defs.drop_first());
        assert(seq![defs[0]] + defs.drop_first() =~= defs);
    }
}

/// The place of the first `c` in `text` from `from` on and before `to`, or
/// `to` if there is none.
pub fn find_char(text: &str, from: usize, to: usize, c: char) -> (at: usize)
    requires
        from <= to <= text@.len(),
    ensures
        from <= at <= to,
        at - from == index_of(text@.subrange(from as int, to as int), c),
{
    let mut at: usize = from;
    while at < to && text.get_char(at) != c
        invariant
            from <= at <= to <= text@.len(),
            forall|k: int| from <= k < at ==> text@[k] != c,
        decreases to - at,
    {
        at += 1;
    }
    proof {
        lemma_index_of(text@.subrange(from as int, to as int), c, at - from);
    }
    at
}

/// Whether `c` does not occur in `text`.
pub fn has_no(text: &str, c: char) -> (ok: bool)
    ensures
        ok == lacks(text@, c),
{
    let n = text.unicode_len();
    let at = find_char(text, 0, n, c);
    proof {
        assert(text@.subrange(0, n as int) =~= text@);
        lemma_index_found(text@, c);
    }
    at == n
}

/// `index_of` is the length exactly where `c` does not occur.
pub proof fn lemma_index_found(s: Seq<char>, c: char)
    ensures
        0 <= index_of(s, c) <= s.len(),
        index_of(s, c) == s.len() <==> lacks(s, c),
        index_of(s, c) < s.len() ==> s[index_of(s, c) as int] == c,
        forall|k: int| 0 <= k < index_of(s, c) ==> s[k] != c,
    decreases s.len(),
{
    if s.len() > 0 {
        let rest = s.drop_first();
        lemma_index_found(rest, c);
        if s[0] != c {
            assert forall|k: int| 0 <= k < index_of(s, c) implies s[k] != c by {
                if k > 0 {
                    assert(rest[k - 1] == s[k]);
                }
            }
            if lacks(rest, c) {
                assert forall|i: int| 0 <= i < s.len() implies s[i] != c by {
                    if i > 0 {
                        assert(rest[i - 1] == s[i]);
                    }
                }
            }
            if lacks(s, c) {
                assert forall|i: int| 0 <= i < rest.len() implies rest[i] != c by {
                    assert(rest[i] == s[i + 1]);
                }
            }
        }
    }
}

/// Whether a line can hold the definition.
pub fn can_encode(entry: &Definition) -> (ok: bool)
    ensures
        ok == entry_encodable(entry@),
{
    if !has_no(entry.key.as_str(), '\n') || !has_no(entry.key.as_str(), '=') {
        return false;
    }
    match &entry.value {
        Some(v) => has_no(v.as_str(), '\n'),
        None => true,
    }
}

/// Writes definitions as text, a line for each. There is no text for a list
/// with a definition that no line can hold.
pub fn encode(defs: &Definitions) -> (r: Option<String>)
    ensures
        match r {
            Some(text) => encodable(defs@) && text@ == encoded(defs@),
            None => !encodable(defs@),
        },
{
    let mut text = String::new();
    let mut i: usize = 0;
    assert(defs@.take(0) =~= DefSeq::empty());
    while i < defs.entries.len()
        invariant
            i <= defs.entries.len(),
            encodable(defs@.take(i as int)),
            text@ == encoded(defs@.take(i as int)),
        decreases defs.entries.len() - i,
    {
        let entry = &defs.entries[i];
        assert(defs@[i as int] == entry@);
        if !can_encode(entry) {
            return None;
        }
        proof {
            assert(defs@.take(i + 1) =~= defs@.take(i as int).push(entry@));
            lemma_encoded_push(defs@.take(i as int), entry@);
            reveal_strlit("=");
            reveal_strlit("\n");
        }
        text.append(entry.key.as_str());
        match &entry.value {
            Some(v) => {
                let sign = "=";
                assert(sign@ =~= seq!['=']);
                text.append(sign);
                text.append(v.as_str());
            },
            None => {},
        }
        let line_break = "\n";
        assert(line_break@ =~= seq!['\n']);
        text.append(line_break);
        assert(text@ =~= encoded(defs@.take(i as int)) + line_text(entry@) + seq!['\n']);
        i += 1;
    }
    assert(defs@.take(defs.entries.len() as int) =~= defs@);
    Some(text)
}

/// Reads definitions from text: `None` for a text that was cut short, else
/// the definition of each line, in order.
pub fn decode(text: &str) -> (r: Option<Definitions>)
    ensures
        match parsed(text@) {
            Some(defs) => r matches Some(d) && d@ == defs,
            None => r is None,
        },
{
    let n = text.unicode_len();
    let mut entries: Vec<Definition> = Vec::new();
    let mut start: usize = 0;
    let ghost mut done: DefSeq = DefSeq::empty();
    assert(text@.skip(0) =~= text@);
    assert(followed(done, parsed(text@)) == parsed(text@)) by {
        if parsed(text@) is Some {
            assert(done + parsed(text@)->Some_0 =~= parsed(text@)->Some_0);
        }
    }
    while start < n
        invariant
            n == text@.len(),
            start <= n,
            done == (Definitions { entries })@,
            parsed(text@) == followed(done, parsed(text@.skip(start as int))),
        decreases n - start,
    {
        let ghost tail = text@.skip(start as int);
        let end = find_char(text, start, n, '\n');
        assert(text@.subrange(start as int, n as int) =~= tail);
        if end == n {
            return None;
        }
        let ghost line = tail.take(end - start);
        assert(text@.subrange(start as int, end as int) =~= line);
        assert(tail.skip(end - start + 1) =~= text@.skip(end + 1));
        let sign = find_char(text, start, end, '=');
        let entry = if sign == end {
            Definition { key: text.substring_char(start, end).to_owned(), value: None }
        } else {
            assert(text@.subrange(start as int, sign as int) =~= line.take(sign - start));
            assert(text@.subrange(sign + 1, end as int) =~= line.skip(sign - start + 1));
            Definition {
                key: text.substring_char(start, sign).to_owned(),
                value: Some(text.substring_char(sign + 1, end).to_owned()),
            }
        };
        assert(entry@ == parse_line(line));
        proof {
            let after = parsed(text@.skip(end + 1));
            if after is Some {
                assert(done + (seq![entry@] + after->Some_0) =~= done.push(entry@)
                    + after->Some_0);
            }
            done = done.push(entry@);
        }
        let ghost before = (Definitions { entries })@;
        entries.push(entry);
        assert((Definitions { entries })@ =~= before.push(entry@));
        start = end + 1;
    }
    assert(parsed(text@.skip(start as int)) == Some(DefSeq::empty()));
    assert(done + DefSeq::empty() =~= done);
    Some(Definitions { entries })
}

/// A unit name that can name a record of the store: a confined path of a
/// single component.
pub open spec fn plain_name(unit: Seq<char>) -> bool {
    confined(unit) && lacks(unit, '/')
}

/// The name under which the store keeps the record of a unit, for a unit
/// whose name can name one.
pub fn record_name(unit: &String) -> (r: Option<String>)
    ensures
        match r {
            Some(name) => plain_name(unit@) && name@ == unit@ + ".defs"@,
            None => !plain_name(unit@),
        },
{
    if is_confined(unit) && has_no(unit.as_str(), '/') {
        Some(unit.clone().concat(".defs"))
    } else {
        None
    }
}

} // verus!
