//! Planning the copy of a unit's files into its private staging tree.

use vstd::prelude::*;
use crate::text::views;

verus! {

/// A file to stage: where it is read, where its copy goes, and whether the
/// copy is compiled.
#[derive(Clone, Debug, PartialEq, Eq)]
pub struct StagedFile {
    pub source: String,
    pub destination: String,
    pub compiled: bool,
}

/// A `StagedFile` as plain values.
pub struct StagedText {
    pub source: Seq<char>,
    pub destination: Seq<char>,
    pub compiled: bool,
}

impl View for StagedFile {
    type V = StagedText;

    open spec fn view(&self) -> StagedText {
        StagedText { source: self.source@, destination: self.destination@, compiled: self.compiled }
    }
}

/// Why a file list cannot be staged.
#[derive(Clone, Debug, PartialEq, Eq)]
pub enum StageError {
    /// The path is empty, absolute, or has a `..` component, so that its copy
    /// could land outside the staging root.
    Unconfined { path: String },
}

/// A `..` component starts at `i`.
pub open spec fn parent_at(path: Seq<char>, i: int) -> bool {
    &&& 0 <= i
    &&& i + 2 <= path.len()
    &&& path[i] == '.'
    &&& path[i + 1] == '.'
    &&& (i == 0 || path[i - 1] == '/')
    &&& (i + 2 == path.len() || path[i + 2] == '/')
}

/// A relative path that stays below the directory it is joined to: not empty,
/// not absolute, and without a `..` component.
pub open spec fn confined(path: Seq<char>) -> bool {
    &&& path.len() > 0
    &&& path[0] != '/'
    &&& forall|i: int| !parent_at(path, i)
}

/// `file` below `root`.
pub open spec fn below(root: Seq<char>, file: Seq<char>) -> Seq<char> {
    root + seq!['/'] + file
}

/// The staged file of `file`.
pub open spec fn planned(
    file: Seq<char>,
    source_root: Seq<char>,
    dest_root: Seq<char>,
    compiled: bool,
) -> StagedText {
    StagedText {
        source: below(source_root, file),
        destination: below(dest_root, file),
        compiled,
    }
}

/// Whether a relative path stays below the directory it is joined to.
pub fn is_confined(path: &String) -> (ok: bool)
    ensures
        ok == confined(path@),
{
    let text = path.as_str();
    let n = text.unicode_len();
    if n == 0 {
        return false;
    }
    if text.get_char(0) == '/' {
        return false;
    }
    let mut i: usize = 0;
    while i < n
        invariant
            n == text@.len(),
            text@ == path@,
            i <= n,
            forall|k: int| k < i ==> !parent_at(path@, k),
        decreases n - i,
    {
        if n - i >= 2 && text.get_char(i) == '.' && text.get_char(i + 1) == '.' {
            let starts = i == 0 || text.get_char(i - 1) == '/';
            let ends = n - i == 2 || text.get_char(i + 2) == '/';
            if starts && ends {
                assert(parent_at(path@, i as int));
                return false;
            }
        }
        i += 1;
    }
    true
}

/// `file` below `root`.
pub fn join_path(root: &String, file: &String) -> (path: String)
    ensures
        path@ == below(root@, file@),
{
    proof {
        reveal_strlit("/");
    }
    let slash = "/";
    assert(slash@ =~= seq!['/']);
    let mut path = root.clone();
    path.append(slash);
    path.append(file.as_str());
    path
}

/// The views of a list of staged files.
pub open spec fn staged_texts(staged: Seq<StagedFile>) -> Seq<StagedText> {
    staged.map_values(|f: StagedFile| f@)
}

/// The plan for a list of files: the staged file of each, in order.
pub open spec fn stage_plan(
    files: Seq<Seq<char>>,
    source_root: Seq<char>,
    dest_root: Seq<char>,
    compiled: bool,
) -> Seq<StagedText> {
    files.map_values(|file: Seq<char>| planned(file, source_root, dest_root, compiled))
}

/// Every path of the list is confined.
pub open spec fn all_confined(files: Seq<Seq<char>>) -> bool {
    forall|i: int| 0 <= i < files.len() ==> confined(#[trigger] files[i])
}

/// Entry `i` is the first of the list that is not confined.
pub open spec fn first_unconfined(files: Seq<Seq<char>>, i: int) -> bool {
    &&& 0 <= i < files.len()
    &&& !confined(files[i])
    &&& forall|k: int| 0 <= k < i ==> confined(#[trigger] files[k])
}

/// Plans the staging of `files`, which are relative to `source_root`, below
/// `dest_root`: one staged file per entry, in order, each copy at the same
/// relative path below the staging root. A file whose path is not confined is
/// refused, the first one by name, and then nothing is planned.
pub fn stage(files: &Vec<String>, source_root: &String, dest_root: &String, compiled: bool) -> (r:
    Result<Vec<StagedFile>, StageError>)
    ensures
        r is Ok <==> all_confined(views(files@)),
        r matches Ok(staged) ==> staged_texts(staged@) == stage_plan(
            views(files@),
            source_root@,
            dest_root@,
            compiled,
        ),
        r matches Err(StageError::Unconfined { path }) ==> exists|i: int|
            first_unconfined(views(files@), i) && path@ == #[trigger] views(files@)[i],
{
    let mut staged: Vec<StagedFile> = Vec::new();
    let mut i: usize = 0;
    let ghost names = views(files@);
    while i < files.len()
        invariant
            i <= files.len(),
            staged.len() == i,
            names == views(files@),
            forall|k: int| 0 <= k < i ==> confined(#[trigger] names[k]),
            forall|k: int|
                0 <= k < i ==> (#[trigger] staged[k])@ == planned(
                    names[k],
                    source_root@,
                    dest_root@,
                    compiled,
                ),
        decreases files.len() - i,
    {
        if !is_confined(&files[i]) {
            assert(first_unconfined(names, i as int));
            assert(names[i as int] == files[i as int]@);
            return Err(StageError::Unconfined { path: files[i].clone() });
        }
        staged.push(
            StagedFile {
                source: join_path(source_root, &files[i]),
                destination: join_path(dest_root, &files[i]),
                compiled,
            },
        );
        i += 1;
    }
    assert(staged_texts(staged@) =~= stage_plan(names, source_root@, dest_root@, compiled));
    Ok(staged)
}

/// Every planned destination lies below the staging root, at a confined
/// relative path.
pub proof fn lemma_destination_below_root(
    file: Seq<char>,
    source_root: Seq<char>,
    dest_root: Seq<char>,
    compiled: bool,
)
    requires
        confined(file),
    ensures
        ({
            let destination = planned(file, source_root, dest_root, compiled).destination;
            let prefix = dest_root + seq!['/'];
            &&& destination.len() > prefix.len()
            &&& destination.subrange(0, prefix.len() as int) == prefix
            &&& confined(destination.subrange(prefix.len() as int, destination.len() as int))
        }),
{
    let destination = planned(file, source_root, dest_root, compiled).destination;
    let prefix = dest_root + seq!['/'];
    assert(destination.subrange(0, prefix.len() as int) =~= prefix);
    assert(destination.subrange(prefix.len() as int, destination.len() as int) =~= file);
}

/// What is found at a destination before staging.
#[derive(Clone, Copy, Debug, PartialEq, Eq, Structural)]
pub enum Found {
    /// Nothing is there.
    Absent,
    /// A file with the content of the source.
    Same,
    /// A file with other content.
    Different,
}

/// What to do with one file.
#[derive(Clone, Copy, Debug, PartialEq, Eq, Structural)]
pub enum StageAction {
    Copy,
    /// Leave the destination untouched.
    Skip,
}

/// What to do on finding `found`: a destination that already holds the
/// source's content is left untouched, every other one is written.
pub open spec fn action_for(found: Found) -> StageAction {
    if found == Found::Same {
        StageAction::Skip
    } else {
        StageAction::Copy
    }
}

/// Decides whether to copy.
pub fn decide(found: Found) -> (action: StageAction)
    ensures
        action == action_for(found),
{
    match found {
        Found::Same => StageAction::Skip,
        Found::Absent => StageAction::Copy,
        Found::Different => StageAction::Copy,
    }
}

/// The content of the files of a directory tree, by path.
pub type Tree = Map<Seq<char>, Seq<u8>>;

/// What is found at `destination` when `content` is to be staged there.
pub open spec fn found_at(tree: Tree, content: Seq<u8>, destination: Seq<char>) -> Found {
    if !tree.dom().contains(destination) {
        Found::Absent
    } else if tree[destination] == content {
        Found::Same
    } else {
        Found::Different
    }
}

/// The staging tree after one file was staged as decided.
pub open spec fn staged_one(tree: Tree, sources: Tree, file: StagedText) -> Tree {
    match action_for(found_at(tree, sources[file.source], file.destination)) {
        StageAction::Copy => tree.insert(file.destination, sources[file.source]),
        StageAction::Skip => tree,
    }
}

/// The staging tree after a plan was carried out, file after file.
pub open spec fn staged_tree(tree: Tree, sources: Tree, plan: Seq<StagedText>) -> Tree
    decreases plan.len(),
{
    if plan.len() == 0 {
        tree
    } else {
        staged_one(staged_tree(tree, sources, plan.drop_last()), sources, plan.last())
    }
}

/// Files of the plan that share a destination have the same content.
pub open spec fn agreeing(sources: Tree, plan: Seq<StagedText>) -> bool {
    forall|i: int, j: int|
        0 <= i < plan.len() && 0 <= j < plan.len() && plan[i].destination == plan[j].destination
            ==> sources[plan[i].source] == sources[plan[j].source]
}

/// What a plan writes, whatever was there before.
pub open spec fn overlay(sources: Tree, plan: Seq<StagedText>) -> Tree
    decreases plan.len(),
{
    if plan.len() == 0 {
        Map::empty()
    } else {
        overlay(sources, plan.drop_last()).insert(
            plan.last().destination,
            sources[plan.last().source],
        )
    }
}

proof fn lemma_staged_is_overlay(tree: Tree, sources: Tree, plan: Seq<StagedText>)
    ensures
        staged_tree(tree, sources, plan) == tree.union_prefer_right(overlay(sources, plan)),
    decreases plan.len(),
{
    if plan.len() == 0 {
        assert(tree.union_prefer_right(overlay(sources, plan)) =~= tree);
    } else {
        let front = plan.drop_last();
        lemma_staged_is_overlay(tree, sources, front);
        let before = staged_tree(tree, sources, front);
        let file = plan.last();
        assert(staged_one(before, sources, file) =~= before.insert(
            file.destination,
            sources[file.source],
        ));
        assert(before.insert(file.destination, sources[file.source])
            =~= tree.union_prefer_right(overlay(sources, plan)));
    }
}

proof fn lemma_overlay_entry(sources: Tree, plan: Seq<StagedText>, destination: Seq<char>)
    requires
        overlay(sources, plan).dom().contains(destination),
    ensures
        exists|j: int|
            0 <= j < plan.len() && (#[trigger] plan[j]).destination == destination && overlay(
                sources,
                plan,
            )[destination] == sources[plan[j].source],
    decreases plan.len(),
{
    if plan.len() > 0 {
        let front = plan.drop_last();
        if plan.last().destination == destination {
            assert(plan[plan.len() - 1].destination == destination);
        } else {
            lemma_overlay_entry(sources, front, destination);
            let j = choose|j: int|
                0 <= j < front.len() && (#[trigger] front[j]).destination == destination
                    && overlay(sources, front)[destination] == sources[front[j].source];
            assert(plan[j].destination == destination);
        }
    }
}

proof fn lemma_overlay_holds(sources: Tree, plan: Seq<StagedText>, i: int)
    requires
        agreeing(sources, plan),
        0 <= i < plan.len(),
    ensures
        overlay(sources, plan).dom().contains(plan[i].destination),
        overlay(sources, plan)[plan[i].destination] == sources[plan[i].source],
{
    lemma_overlay_entry_present(sources, plan, i);
    lemma_overlay_entry(sources, plan, plan[i].destination);
}

proof fn lemma_overlay_entry_present(sources: Tree, plan: Seq<StagedText>, i: int)
    requires
        0 <= i < plan.len(),
    ensures
        overlay(sources, plan).dom().contains(plan[i].destination),
    decreases plan.len(),
{
    if i < plan.len() - 1 {
        lemma_overlay_entry_present(sources, plan.drop_last(), i);
    }
}

/// Staging is idempotent: carrying out a plan on the tree that it left gives
/// that tree again.
pub proof fn lemma_staging_idempotent(tree: Tree, sources: Tree, plan: Seq<StagedText>)
    ensures
        staged_tree(staged_tree(tree, sources, plan), sources, plan) == staged_tree(
            tree,
            sources,
            plan,
        ),
{
    let once = staged_tree(tree, sources, plan);
    lemma_staged_is_overlay(tree, sources, plan);
    lemma_staged_is_overlay(once, sources, plan);
    assert(once.union_prefer_right(overlay(sources, plan)) =~= once);
}

/// Staging again touches nothing: on the tree that a plan left, where files
/// that share a destination have the same content, every file of the plan is
/// found unchanged, so that its copy is skipped, and the tree stays as it is
/// all the way through the second pass.
pub proof fn lemma_restaging_skips(tree: Tree, sources: Tree, plan: Seq<StagedText>, i: int)
    requires
        agreeing(sources, plan),
        0 <= i < plan.len(),
    ensures
        ({
            let once = staged_tree(tree, sources, plan);
            let reached = staged_tree(once, sources, plan.take(i));
            &&& reached == once
            &&& action_for(found_at(reached, sources[plan[i].source], plan[i].destination))
                == StageAction::Skip
        }),
{
    let once = staged_tree(tree, sources, plan);
    let all = overlay(sources, plan);
    let part = overlay(sources, plan.take(i));
    lemma_staged_is_overlay(tree, sources, plan);
    lemma_staged_is_overlay(once, sources, plan.take(i));
    lemma_overlay_holds(sources, plan, i);
    assert forall|d: Seq<char>| #[trigger] part.dom().contains(d) implies once.dom().contains(d)
        && once[d] == part[d] by {
        lemma_overlay_entry(sources, plan.take(i), d);
        let j = choose|j: int|
            0 <= j < plan.take(i).len() && (#[trigger] plan.take(i)[j]).destination == d
                && part[d] == sources[plan.take(i)[j].source];
        assert(plan.take(i)[j] == plan[j]);
        lemma_overlay_holds(sources, plan, j);
    }
    assert(once.union_prefer_right(part) =~= once);
}

/// The plan of a unit's files agrees with any source tree: two of its files
/// with one destination are copies of one source.
pub proof fn lemma_plan_agrees(
    sources: Tree,
    headers: Seq<Seq<char>>,
    compiled: Seq<Seq<char>>,
    source_root: Seq<char>,
    dest_root: Seq<char>,
)
    ensures
        agreeing(
            sources,
            stage_plan(headers, source_root, dest_root, false) + stage_plan(
                compiled,
                source_root,
                dest_root,
                true,
            ),
        ),
{
    let plan = stage_plan(headers, source_root, dest_root, false) + stage_plan(
        compiled,
        source_root,
        dest_root,
        true,
    );
    let files = headers + compiled;
    assert forall|i: int, j: int|
        0 <= i < plan.len() && 0 <= j < plan.len() && plan[i].destination
            == plan[j].destination implies sources[plan[i].source] == sources[plan[j].source] by {
        assert(plan[i].destination == below(dest_root, files[i]));
        assert(plan[j].destination == below(dest_root, files[j]));
        assert(plan[i].source == below(source_root, files[i]));
        assert(plan[j].source == below(source_root, files[j]));
        let start = dest_root.len() + 1;
        assert(below(dest_root, files[i]).subrange(
            start as int,
            below(dest_root, files[i]).len() as int,
        ) =~= files[i]);
        assert(below(dest_root, files[j]).subrange(
            start as int,
            below(dest_root, files[j]).len() as int,
        ) =~= files[j]);
    }
}

/// The paths of a plan's first `n` files: of each its source, then its
/// destination.
pub open spec fn watched(staged: Seq<StagedFile>, n: int) -> Seq<Seq<char>>
    decreases n,
{
    if n <= 0 {
        seq![]
    } else {
        watched(staged, n - 1).push(staged[n - 1].source@).push(staged[n - 1].destination@)
    }
}

/// The paths to register for change tracking: of every staged file its source
/// and its destination, whether or not the copy is skipped.
pub fn watched_paths(staged: &Vec<StagedFile>) -> (paths: Vec<String>)
    ensures
        views(paths@) == watched(staged@, staged.len() as int),
{
    let mut paths: Vec<String> = Vec::new();
    let mut i: usize = 0;
    assert(views(paths@) =~= watched(staged@, 0));
    while i < staged.len()
        invariant
            i <= staged.len(),
            views(paths@) == watched(staged@, i as int),
        decreases staged.len() - i,
    {
        let ghost before = paths@;
        paths.push(staged[i].source.clone());
        paths.push(staged[i].destination.clone());
        assert(views(paths@) =~= views(before).push(staged[i as int].source@).push(
            staged[i as int].destination@,
        ));
        i += 1;
    }
    paths
}

} // verus!
