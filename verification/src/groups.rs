//! Choosing the files that a unit compiles and exports under given flags.

use vstd::prelude::*;
use crate::flags::Flags;
use crate::text::{
    contains_text, dedup, lemma_dedup_no_repeats, lemma_dedup_same_entries, lemma_dedup_step, views,
};

verus! {

/// The name of a group of files.
#[derive(Clone, Copy, Debug, PartialEq, Eq, Structural)]
pub enum GroupId {
    /// Always compiled.
    Base,
    /// Compiled in full mode only.
    Heavy,
    AsyncIo,
    Http,
    Tls,
    Compression,
    SchemaCompiler,
}

/// One entry of a unit's table: a group, the groups it cannot do without, the
/// sources it compiles and the headers it exports.
#[derive(Clone, Debug, PartialEq, Eq)]
pub struct SourceGroup {
    pub id: GroupId,
    pub needs: Vec<GroupId>,
    pub sources: Vec<String>,
    pub headers: Vec<String>,
}

/// A `SourceGroup` as plain values.
pub struct GroupText {
    pub id: GroupId,
    pub needs: Seq<GroupId>,
    pub sources: Seq<Seq<char>>,
    pub headers: Seq<Seq<char>>,
}

impl View for SourceGroup {
    type V = GroupText;

    open spec fn view(&self) -> GroupText {
        GroupText {
            id: self.id,
            needs: self.needs@,
            sources: views(self.sources@),
            headers: views(self.headers@),
        }
    }
}

/// The views of a table's entries.
pub open spec fn group_texts(table: Seq<SourceGroup>) -> Seq<GroupText> {
    table.map_values(|g: SourceGroup| g@)
}

/// The files chosen for a unit.
#[derive(Clone, Debug, PartialEq, Eq)]
pub struct Selection {
    pub sources: Vec<String>,
    pub headers: Vec<String>,
}

/// Why no selection can be made.
#[derive(Clone, Copy, Debug, PartialEq, Eq, Structural)]
pub enum ConfigError {
    /// `group` is switched on and `needs`, which it is built on, is not.
    MissingPrerequisite { group: GroupId, needs: GroupId },
}

/// Whether the flags switch a group on. The base group is always on.
pub open spec fn active(id: GroupId, flags: Flags) -> bool {
    match id {
        GroupId::Base => true,
        GroupId::Heavy => flags.full,
        GroupId::AsyncIo => flags.async_io,
        GroupId::Http => flags.http,
        GroupId::Tls => flags.tls,
        GroupId::Compression => flags.compression,
        GroupId::SchemaCompiler => flags.schema_compiler,
    }
}

/// Whether the flags switch a group on.
pub fn is_active(id: GroupId, flags: &Flags) -> (on: bool)
    ensures
        on == active(id, *flags),
{
    match id {
        GroupId::Base => true,
        GroupId::Heavy => flags.full,
        GroupId::AsyncIo => flags.async_io,
        GroupId::Http => flags.http,
        GroupId::Tls => flags.tls,
        GroupId::Compression => flags.compression,
        GroupId::SchemaCompiler => flags.schema_compiler,
    }
}

/// Entry `i` of the table is on and its prerequisite number `k` is off.
pub open spec fn unmet(table: Seq<GroupText>, flags: Flags, i: int, k: int) -> bool {
    &&& 0 <= i < table.len()
    &&& 0 <= k < table[i].needs.len()
    &&& active(table[i].id, flags)
    &&& !active(table[i].needs[k], flags)
}

/// Every group that is on has all its prerequisites on.
pub open spec fn consistent(table: Seq<GroupText>, flags: Flags) -> bool {
    forall|i: int, k: int| !unmet(table, flags, i, k)
}

/// `(i, k)` is the first unmet prerequisite, going through the table in order
/// and through each entry's prerequisites in order.
pub open spec fn first_unmet(table: Seq<GroupText>, flags: Flags, i: int, k: int) -> bool {
    &&& unmet(table, flags, i, k)
    &&& forall|i2: int, k2: int| (i2 < i || (i2 == i && k2 < k)) ==> !unmet(table, flags, i2, k2)
}

/// The sources or the headers of an entry.
pub open spec fn group_files(group: GroupText, headers: bool) -> Seq<Seq<char>> {
    if headers {
        group.headers
    } else {
        group.sources
    }
}

/// The files of the first `n` entries that are on, entry after entry, repeats
/// included.
pub open spec fn gathered(table: Seq<GroupText>, flags: Flags, headers: bool, n: int) -> Seq<
    Seq<char>,
>
    decreases n,
{
    if n <= 0 {
        seq![]
    } else {
        gathered(table, flags, headers, n - 1) + if active(table[n - 1].id, flags) {
            group_files(table[n - 1], headers)
        } else {
            seq![]
        }
    }
}

/// The file list of a table under given flags: the files of the groups that
/// are on, in table order, each file once.
pub open spec fn selected_files(table: Seq<GroupText>, flags: Flags, headers: bool) -> Seq<
    Seq<char>,
> {
    dedup(gathered(table, flags, headers, table.len() as int))
}

/// What a selection comes to, as plain values.
pub enum Outcome {
    Chosen { sources: Seq<Seq<char>>, headers: Seq<Seq<char>> },
    Refused { group: GroupId, needs: GroupId },
}

/// The outcome that a result stands for.
pub open spec fn outcome_of(r: Result<Selection, ConfigError>) -> Outcome {
    match r {
        Ok(chosen) => Outcome::Chosen {
            sources: views(chosen.sources@),
            headers: views(chosen.headers@),
        },
        Err(ConfigError::MissingPrerequisite { group, needs }) => Outcome::Refused { group, needs },
    }
}

/// `outcome` is what selecting from `table` under `flags` comes to: where
/// every group that is on has its prerequisites, the files of the groups that
/// are on; else the first group that lacks one, with the one it lacks.
pub open spec fn selects(table: Seq<GroupText>, flags: Flags, outcome: Outcome) -> bool {
    match outcome {
        Outcome::Chosen { sources, headers } => {
            &&& consistent(table, flags)
            &&& sources == selected_files(table, flags, false)
            &&& headers == selected_files(table, flags, true)
        },
        Outcome::Refused { group, needs } => exists|i: int, k: int|
            first_unmet(table, flags, i, k) && group == table[i].id && needs == table[i].needs[k],
    }
}

/// Looks for the first unmet prerequisite.
pub fn validate(table: &Vec<SourceGroup>, flags: &Flags) -> (r: Result<(), ConfigError>)
    ensures
        r is Ok <==> consistent(group_texts(table@), *flags),
        r matches Err(ConfigError::MissingPrerequisite { group, needs }) ==> exists|
            i: int,
            k: int,
        |
            first_unmet(group_texts(table@), *flags, i, k) && group == table[i].id && needs
                == table[i].needs[k],
{
    let mut i: usize = 0;
    while i < table.len()
        invariant
            i <= table.len(),
            forall|i2: int, k2: int| i2 < i ==> !unmet(group_texts(table@), *flags, i2, k2),
        decreases table.len() - i,
    {
        let group = &table[i];
        if is_active(group.id, flags) {
            let mut k: usize = 0;
            while k < group.needs.len()
                invariant
                    i < table.len(),
                    group == &table[i as int],
                    k <= group.needs.len(),
                    active(group.id, *flags),
                    forall|i2: int, k2: int| i2 < i ==> !unmet(group_texts(table@), *flags, i2, k2),
                    forall|k2: int| k2 < k ==> !unmet(group_texts(table@), *flags, i as int, k2),
                decreases group.needs.len() - k,
            {
                if !is_active(group.needs[k], flags) {
                    assert(first_unmet(group_texts(table@), *flags, i as int, k as int));
                    return Err(
                        ConfigError::MissingPrerequisite { group: group.id, needs: group.needs[k] },
                    );
                }
                k += 1;
            }
        }
        i += 1;
    }
    Ok(())
}

/// Gathers the sources, or the headers, of the groups that are on.
pub fn gather(table: &Vec<SourceGroup>, flags: &Flags, headers: bool) -> (out: Vec<String>)
    ensures
        views(out@) == selected_files(group_texts(table@), *flags, headers),
{
    let mut out: Vec<String> = Vec::new();
    let mut i: usize = 0;
    assert(views(out@) =~= dedup(gathered(group_texts(table@), *flags, headers, 0)));
    while i < table.len()
        invariant
            i <= table.len(),
            views(out@) == dedup(gathered(group_texts(table@), *flags, headers, i as int)),
        decreases table.len() - i,
    {
        let group = &table[i];
        let ghost before = gathered(group_texts(table@), *flags, headers, i as int);
        if is_active(group.id, flags) {
            let files = if headers {
                &group.headers
            } else {
                &group.sources
            };
            let mut j: usize = 0;
            assert(before + views(files@).take(0) =~= before);
            while j < files.len()
                invariant
                    j <= files.len(),
                    views(out@) == dedup(before + views(files@).take(j as int)),
                decreases files.len() - j,
            {
                proof {
                    let front = before + views(files@).take(j as int);
                    assert(before + views(files@).take(j + 1) =~= front.push(files[j as int]@));
                    lemma_dedup_step(front, files[j as int]@);
                }
                if !contains_text(&out, &files[j]) {
                    let ghost prior = out@;
                    out.push(files[j].clone());
                    assert(views(out@) =~= views(prior).push(files[j as int]@));
                }
                j += 1;
            }
            assert(views(files@).take(files.len() as int) =~= views(files@));
            assert(views(files@) == group_files(group_texts(table@)[i as int], headers));
        } else {
            assert(before + Seq::<Seq<char>>::empty() =~= before);
        }
        i += 1;
    }
    out
}

/// Selects the files of a unit: an error for the first group that is on while
/// one of its prerequisites is off, else the sources and the headers of the
/// groups that are on, in table order and without repeats.
pub fn select(table: &Vec<SourceGroup>, flags: &Flags) -> (r: Result<Selection, ConfigError>)
    ensures
        selects(group_texts(table@), *flags, outcome_of(r)),
        r is Ok <==> consistent(group_texts(table@), *flags),
{
    match validate(table, flags) {
        Err(e) => Err(e),
        Ok(()) => Ok(
            Selection { sources: gather(table, flags, false), headers: gather(table, flags, true) },
        ),
    }
}

/// Selection is deterministic: a table and flags admit one outcome only, so
/// equal inputs give the same ordered lists, or the same refusal.
pub proof fn lemma_select_deterministic(
    table: Seq<GroupText>,
    flags: Flags,
    one: Outcome,
    other: Outcome,
)
    requires
        selects(table, flags, one),
        selects(table, flags, other),
    ensures
        one == other,
{
}

/// Entry `i` of the table is on and lists `file`.
pub open spec fn listed(
    table: Seq<GroupText>,
    flags: Flags,
    headers: bool,
    i: int,
    file: Seq<char>,
) -> bool {
    &&& 0 <= i < table.len()
    &&& active(table[i].id, flags)
    &&& group_files(table[i], headers).contains(file)
}

proof fn lemma_gathered_listed(
    table: Seq<GroupText>,
    flags: Flags,
    headers: bool,
    n: int,
    file: Seq<char>,
)
    requires
        0 <= n <= table.len(),
    ensures
        gathered(table, flags, headers, n).contains(file) <==> exists|i: int|
            i < n && listed(table, flags, headers, i, file),
    decreases n,
{
    if n > 0 {
        lemma_gathered_listed(table, flags, headers, n - 1, file);
        let front = gathered(table, flags, headers, n - 1);
        let here: Seq<Seq<char>> = if active(table[n - 1].id, flags) {
            group_files(table[n - 1], headers)
        } else {
            seq![]
        };
        let all = front + here;
        if all.contains(file) {
            let k = choose|k: int| 0 <= k < all.len() && all[k] == file;
            if k < front.len() {
                assert(front[k] == file);
                assert(front.contains(file));
            } else {
                assert(here[k - front.len()] == file);
                assert(here.contains(file));
                assert(listed(table, flags, headers, n - 1, file));
            }
        }
        if exists|i: int| i < n && listed(table, flags, headers, i, file) {
            let i = choose|i: int| i < n && listed(table, flags, headers, i, file);
            if i < n - 1 {
                assert(front.contains(file));
                let k = choose|k: int| 0 <= k < front.len() && front[k] == file;
                assert(all[k] == file);
            } else {
                let k = choose|k: int| 0 <= k < here.len() && here[k] == file;
                assert(all[front.len() + k] == file);
            }
        }
    }
}

/// What a selection holds: a file is selected exactly if a group that is on
/// lists it, and no file is selected twice.
pub proof fn lemma_selected_files(table: Seq<GroupText>, flags: Flags, headers: bool)
    ensures
        forall|file: Seq<char>| #[trigger]
            selected_files(table, flags, headers).contains(file) <==> exists|i: int|
                listed(table, flags, headers, i, file),
        forall|a: int, b: int|
            0 <= a < b < selected_files(table, flags, headers).len() ==> selected_files(
                table,
                flags,
                headers,
            )[a] != selected_files(table, flags, headers)[b],
{
    let all = gathered(table, flags, headers, table.len() as int);
    lemma_dedup_same_entries(all);
    lemma_dedup_no_repeats(all);
    assert forall|file: Seq<char>| #[trigger]
        selected_files(table, flags, headers).contains(file) <==> exists|i: int|
            listed(table, flags, headers, i, file) by {
        lemma_gathered_listed(table, flags, headers, table.len() as int, file);
        assert(dedup(all).contains(file) <==> all.contains(file));
    }
}

} // verus!
