//! One unit's way from its declared capabilities to a build plan, and the
//! publication that follows a successful build.

use vstd::prelude::*;
use crate::configure::bool_int_text;
use crate::definitions::{DefSeq, Definition, Definitions, PropagationError};
use crate::flags::{resolve, resolved, Flags};
use crate::groups::{
    consistent, first_unmet, select, selected_files, ConfigError,
};
use crate::link::{directives, emit, link_texts, LinkDirective};
use crate::propagation::{import, import_result, Store};
use crate::staging::{
    action_for, all_confined, first_unconfined, found_at, lemma_plan_agrees,
    lemma_restaging_skips, lemma_staging_idempotent, stage, stage_plan, staged_texts, staged_tree,
    watched, watched_paths, StageAction, StageError, StagedFile, StagedText, Tree,
};
use crate::text::views;
use crate::units::{UnitDecl, UnitText};

verus! {

/// What the build of one unit works with: its flags and the definitions it
/// imported, joined with its own.
#[derive(Clone, Debug, PartialEq, Eq)]
pub struct Configuration {
    pub flags: Flags,
    pub definitions: Definitions,
}

/// What is to be done for one unit.
#[derive(Clone, Debug, PartialEq, Eq)]
pub struct BuildPlan {
    pub configuration: Configuration,
    /// The headers, which are only copied, then the sources, which are
    /// compiled too.
    pub staged: Vec<StagedFile>,
    /// The paths to register for change tracking.
    pub watched: Vec<String>,
    pub links: Vec<LinkDirective>,
}

/// Why there is no plan.
#[derive(Clone, Debug, PartialEq, Eq)]
pub enum BuildError {
    Propagation(PropagationError),
    Config(ConfigError),
    Stage(StageError),
}

/// The value of the mode definition.
pub open spec fn mode_text(full: bool) -> Seq<char> {
    if full {
        "full"@
    } else {
        "minimal"@
    }
}

/// The ABI-affecting definitions that the flags stand for: the mode, then
/// the diagnostics switch.
pub open spec fn abi_texts(flags: Flags) -> DefSeq {
    seq![("MODE"@, Some(mode_text(flags.full))), ("DIAG"@, Some(bool_int_text(flags.diagnostics)))]
}

/// The ABI-affecting definitions that the flags stand for.
pub fn abi_definitions(flags: &Flags) -> (defs: Definitions)
    ensures
        defs@ == abi_texts(*flags),
{
    let mode = if flags.full {
        "full"
    } else {
        "minimal"
    };
    let diag = crate::configure::bool_int_str(flags.diagnostics);
    let mut entries: Vec<Definition> = Vec::new();
    entries.push(Definition::new("MODE", Some(mode)));
    entries.push(Definition::new("DIAG", Some(diag)));
    let defs = Definitions { entries };
    assert(defs@ =~= abi_texts(*flags));
    defs
}

/// The files of a plan: the staged headers, then the staged sources.
pub open spec fn plan_files(
    unit: UnitText,
    flags: Flags,
    source_root: Seq<char>,
    dest_root: Seq<char>,
) -> Seq<StagedText> {
    stage_plan(selected_files(unit.groups, flags, true), source_root, dest_root, false)
        + stage_plan(selected_files(unit.groups, flags, false), source_root, dest_root, true)
}

/// Prepares the build of a unit: resolves the declared capabilities, imports
/// and checks the definitions of the units it is built on, selects its files
/// and plans their staging, in this order, and stops at the first step that
/// fails. The store is read, not written: see `conclude`.
pub fn prepare(
    unit: &UnitDecl,
    declared: &Vec<String>,
    store: &Store,
    source_root: &String,
    dest_root: &String,
) -> (r: Result<BuildPlan, BuildError>)
    ensures
        ({
            let flags = resolved(views(declared@));
            let headers = selected_files(unit@.groups, flags, true);
            let sources = selected_files(unit@.groups, flags, false);
            match import_result(store@, unit@.upstream, abi_texts(flags)) {
                Err(failure) => r matches Err(BuildError::Propagation(e)) && e@ == failure,
                Ok(defs) => if !consistent(unit@.groups, flags) {
                    r matches Err(
                        BuildError::Config(ConfigError::MissingPrerequisite { group, needs }),
                    ) && exists|i: int, k: int|
                        first_unmet(unit@.groups, flags, i, k) && group == unit@.groups[i].id
                            && needs == unit@.groups[i].needs[k]
                } else if !all_confined(headers) {
                    r matches Err(BuildError::Stage(StageError::Unconfined { path }))
                        && exists|i: int|
                        first_unconfined(headers, i) && path@ == #[trigger] headers[i]
                } else if !all_confined(sources) {
                    r matches Err(BuildError::Stage(StageError::Unconfined { path }))
                        && exists|i: int|
                        first_unconfined(sources, i) && path@ == #[trigger] sources[i]
                } else {
                    r matches Ok(plan) && plan.configuration.flags == flags
                        && plan.configuration.definitions@ == defs && staged_texts(plan.staged@)
                        == plan_files(unit@, flags, source_root@, dest_root@) && views(
                        plan.watched@,
                    ) == watched(plan.staged@, plan.staged.len() as int) && link_texts(
                        plan.links@,
                    ) == directives(unit@.name, unit@.upstream, flags)
                },
            }
        }),
{
    let flags = resolve(declared);
    let local = abi_definitions(&flags);
    let definitions = match import(store, &unit.upstream, &local) {
        Err(e) => {
            return Err(BuildError::Propagation(e));
        },
        Ok(d) => d,
    };
    let chosen = match select(&unit.groups, &flags) {
        Err(e) => {
            return Err(BuildError::Config(e));
        },
        Ok(c) => c,
    };
    let mut staged = match stage(&chosen.headers, source_root, dest_root, false) {
        Err(e) => {
            return Err(BuildError::Stage(e));
        },
        Ok(s) => s,
    };
    let mut compiled = match stage(&chosen.sources, source_root, dest_root, true) {
        Err(e) => {
            return Err(BuildError::Stage(e));
        },
        Ok(s) => s,
    };
    let ghost first = staged@;
    let ghost second = compiled@;
    staged.append(&mut compiled);
    assert(staged_texts(staged@) =~= staged_texts(first) + staged_texts(second));
    let watched = watched_paths(&staged);
    let links = emit(&unit.name, &unit.upstream, &flags);
    Ok(BuildPlan { configuration: Configuration { flags, definitions }, staged, watched, links })
}

/// Concludes the build of a unit: publishes the definitions it was built
/// with, those it imported and its own, for the units built on it.
pub fn conclude(store: &mut Store, unit: &UnitDecl, plan: &BuildPlan)
    ensures
        final(store)@ == old(store)@.insert(unit@.name, plan.configuration.definitions@),
{
    store.publish(&unit.name, &plan.configuration.definitions);
}

/// Staging a unit's files again changes nothing: on the tree that the plan
/// left, carrying the plan out once more gives the same tree, and every file
/// of the plan is found unchanged, so that its copy is skipped.
pub proof fn lemma_plan_restaging(
    tree: Tree,
    sources: Tree,
    unit: UnitText,
    flags: Flags,
    source_root: Seq<char>,
    dest_root: Seq<char>,
    i: int,
)
    requires
        0 <= i < plan_files(unit, flags, source_root, dest_root).len(),
    ensures
        ({
            let plan = plan_files(unit, flags, source_root, dest_root);
            let once = staged_tree(tree, sources, plan);
            &&& staged_tree(once, sources, plan) == once
            &&& action_for(found_at(once, sources[plan[i].source], plan[i].destination))
                == StageAction::Skip
        }),
{
    let plan = plan_files(unit, flags, source_root, dest_root);
    lemma_plan_agrees(
        sources,
        selected_files(unit.groups, flags, true),
        selected_files(unit.groups, flags, false),
        source_root,
        dest_root,
    );
    lemma_staging_idempotent(tree, sources, plan);
    lemma_restaging_skips(tree, sources, plan, i);
}

} // verus!
