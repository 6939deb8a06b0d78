//! The project registry: the list of projects that this daemon manages.

use vstd::prelude::*;

use crate::config::{GlobalConfig, ProjectPointer, ProjectPointerView};
use crate::paths::within;
use crate::text::str_eq;

verus! {

/// The result of [`add_project`].
#[derive(Clone, Copy, Debug, Eq, PartialEq, Structural)]
pub enum AddOutcome {
    /// No project with this name was registered before.
    Added,
    /// A project with this name was registered already; its directory was
    /// updated in place.
    Updated,
}

/// The contents of several registry entries.
pub open spec fn pointers(projects: Seq<ProjectPointer>) -> Seq<ProjectPointerView> {
    projects.map_values(|pointer: ProjectPointer| pointer@)
}

/// Whether the entry at `at` is the first with `name`.
pub open spec fn is_first_named(
    projects: Seq<ProjectPointerView>,
    name: Seq<char>,
    at: int,
) -> bool {
    &&& 0 <= at < projects.len()
    &&& projects[at].name == name
    &&& forall|i: int| 0 <= i < at ==> (#[trigger] projects[i]).name != name
}

/// Whether no entry has `name`.
pub open spec fn is_unnamed(projects: Seq<ProjectPointerView>, name: Seq<char>) -> bool {
    forall|i: int| 0 <= i < projects.len() ==> (#[trigger] projects[i]).name != name
}

/// Whether `after` is `before` with `pointer` registered: in place of the
/// first entry with its name, or else at the end.
pub open spec fn is_registered(
    before: Seq<ProjectPointerView>,
    after: Seq<ProjectPointerView>,
    pointer: ProjectPointerView,
    outcome: AddOutcome,
) -> bool {
    match outcome {
        AddOutcome::Updated => exists|at: int| #[trigger]
            is_first_named(before, pointer.name, at) && after == before.update(at, pointer),
        AddOutcome::Added => is_unnamed(before, pointer.name) && after == before.push(pointer),
    }
}

/// The position of the first entry with `name`.
fn position(projects: &Vec<ProjectPointer>, name: &str) -> (at: Option<usize>)
    ensures
        match at {
            Some(at) => is_first_named(pointers(projects@), name@, at as int),
            None => is_unnamed(pointers(projects@), name@),
        },
{
    let ghost all = pointers(projects@);
    let mut i: usize = 0;
    while i < projects.len()
        invariant
            i <= projects@.len(),
            all == pointers(projects@),
            forall|k: int| 0 <= k < i ==> (#[trigger] all[k]).name != name@,
        decreases projects@.len() - i,
    {
        assert(all[i as int] == projects@[i as int]@);
        if str_eq(projects[i].name.as_str(), name) {
            return Some(i);
        }
        i += 1;
    }
    None
}

/// Registers `pointer`, keyed on its name.
///
/// Registering a known name again updates its directory in place.
pub fn add_project(config: &mut GlobalConfig, pointer: ProjectPointer) -> (outcome: AddOutcome)
    ensures
        is_registered(
            pointers(old(config).projects@),
            pointers(final(config).projects@),
            pointer@,
            outcome,
        ),
        *final(config) == (GlobalConfig { projects: final(config).projects, ..*old(config) }),
{
    let ghost before = pointers(config.projects@);
    match position(&config.projects, pointer.name.as_str()) {
        Some(at) => {
            let ghost view = pointer@;
            config.projects.set(at, pointer);
            proof {
                assert(pointers(config.projects@) =~= before.update(at as int, view));
                assert(is_first_named(before, view.name, at as int));
            }
            AddOutcome::Updated
        },
        None => {
            let ghost view = pointer@;
            config.projects.push(pointer);
            assert(pointers(config.projects@) =~= before.push(view));
            AddOutcome::Added
        },
    }
}

/// The entries whose name is not `name`, in order.
pub open spec fn without(projects: Seq<ProjectPointerView>, name: Seq<char>) -> Seq<
    ProjectPointerView,
> {
    projects.filter(|pointer: ProjectPointerView| pointer.name != name)
}

/// Removes every project named `name`; whether there was one.
pub fn remove_project(config: &mut GlobalConfig, name: &str) -> (removed: bool)
    ensures
        pointers(final(config).projects@) == without(pointers(old(config).projects@), name@),
        removed == !is_unnamed(pointers(old(config).projects@), name@),
        *final(config) == (GlobalConfig { projects: final(config).projects, ..*old(config) }),
{
    let ghost all = pointers(config.projects@);
    let ghost keep = |pointer: ProjectPointerView| pointer.name != name@;
    let mut kept: Vec<ProjectPointer> = Vec::new();
    let mut removed = false;
    let mut i: usize = 0;
    proof {
        reveal(Seq::filter);
        assert(pointers(kept@) =~= all.take(0).filter(keep));
    }
    while i < config.projects.len()
        invariant
            i <= config.projects@.len(),
            all == pointers(config.projects@),
            *config == *old(config),
            keep == (|pointer: ProjectPointerView| pointer.name != name@),
            pointers(kept@) == all.take(i as int).filter(keep),
            removed == exists|k: int| 0 <= k < i && (#[trigger] all[k]).name == name@,
        decreases config.projects@.len() - i,
    {
        let pointer = &config.projects[i];
        let ghost before = kept@;
        proof {
            assert(all[i as int] == pointer@);
            assert(all.take(i + 1) =~= all.take(i as int).push(pointer@));
            all.take(i as int).lemma_filter_push(pointer@, keep);
        }
        if str_eq(pointer.name.as_str(), name) {
            removed = true;
        } else {
            kept.push(pointer.clone());
            assert(pointers(kept@) =~= pointers(before).push(pointer@));
        }
        i += 1;
    }
    assert(all.take(i as int) =~= all);
    config.projects = kept;
    removed
}

/// All registered projects, in registration order.
pub fn list_projects(config: &GlobalConfig) -> (projects: &[ProjectPointer])
    ensures
        projects@ == config.projects@,
{
    config.projects.as_slice()
}

/// Looks up a registered project by name.
pub fn find_project<'a>(config: &'a GlobalConfig, name: &str) -> (found: Option<
    &'a ProjectPointer,
>)
    ensures
        match found {
            Some(pointer) => exists|at: int| #[trigger]
                is_first_named(pointers(config.projects@), name@, at)
                    && config.projects@[at] == *pointer,
            None => is_unnamed(pointers(config.projects@), name@),
        },
{
    match position(&config.projects, name) {
        Some(at) => Some(&config.projects[at]),
        None => None,
    }
}

/// Whether the entry at `at` is the first whose directory contains `path`.
pub open spec fn is_first_containing(
    projects: Seq<ProjectPointerView>,
    path: Seq<char>,
    at: int,
) -> bool {
    &&& 0 <= at < projects.len()
    &&& crate::paths::is_within(path, projects[at].project_dir)
    &&& forall|i: int|
        0 <= i < at ==> !crate::paths::is_within(path, (#[trigger] projects[i]).project_dir)
}

/// Looks up the registered project whose directory contains `path`: `path` is
/// that directory, or something below it.
pub fn find_project_containing<'a>(config: &'a GlobalConfig, path: &str) -> (found: Option<
    &'a ProjectPointer,
>)
    ensures
        match found {
            Some(pointer) => exists|at: int| #[trigger]
                is_first_containing(pointers(config.projects@), path@, at)
                    && config.projects@[at] == *pointer,
            None => forall|i: int|
                0 <= i < config.projects@.len() ==> !crate::paths::is_within(
                    path@,
                    (#[trigger] config.projects@[i])@.project_dir,
                ),
        },
{
    let ghost all = pointers(config.projects@);
    let mut i: usize = 0;
    while i < config.projects.len()
        invariant
            i <= config.projects@.len(),
            all == pointers(config.projects@),
            forall|k: int|
                0 <= k < i ==> !crate::paths::is_within(path@, (#[trigger] all[k]).project_dir),
        decreases config.projects@.len() - i,
    {
        assert(all[i as int] == config.projects@[i as int]@);
        if within(path, config.projects[i].project_dir.as_str()) {
            assert(is_first_containing(all, path@, i as int));
            return Some(&config.projects[i]);
        }
        i += 1;
    }
    proof {
        assert forall|k: int| 0 <= k < config.projects@.len() implies !crate::paths::is_within(
            path@,
            (#[trigger] config.projects@[k])@.project_dir,
        ) by {
            assert(all[k] == config.projects@[k]@);
        }
    }
    None
}

/// Whether no two entries have the same name.
pub open spec fn names_distinct(projects: Seq<ProjectPointerView>) -> bool {
    forall|i: int, j: int|
        0 <= i < j < projects.len() ==> (#[trigger] projects[i]).name != (
        #[trigger] projects[j]).name
}

/// Registering keeps names distinct.
pub proof fn registering_keeps_names_distinct(
    before: Seq<ProjectPointerView>,
    after: Seq<ProjectPointerView>,
    pointer: ProjectPointerView,
    outcome: AddOutcome,
)
    requires
        names_distinct(before),
        is_registered(before, after, pointer, outcome),
    ensures
        names_distinct(after),
{
    if outcome is Updated {
        let at = choose|at: int| #[trigger]
            is_first_named(before, pointer.name, at) && after == before.update(at, pointer);
        assert forall|i: int, j: int| 0 <= i < j < after.len() implies (
        #[trigger] after[i]).name != (#[trigger] after[j]).name by {
            assert(before[i].name != before[j].name);
        }
    } else {
        assert forall|i: int, j: int| 0 <= i < j < after.len() implies (
        #[trigger] after[i]).name != (#[trigger] after[j]).name by {
            assert(before[i].name != pointer.name);
            if j < before.len() {
                assert(before[i].name != before[j].name);
            }
        }
    }
}

/// Whether at most one entry has `name`.
pub open spec fn is_named_once_at_most(projects: Seq<ProjectPointerView>, name: Seq<char>) -> bool {
    forall|i: int, j: int|
        0 <= i < j < projects.len() ==> (#[trigger] projects[i]).name != name || (
        #[trigger] projects[j]).name != name
}

/// Registering a project leaves its name with a single entry, where it had one
/// at most.
pub proof fn registering_keeps_a_name_single(
    before: Seq<ProjectPointerView>,
    after: Seq<ProjectPointerView>,
    pointer: ProjectPointerView,
    outcome: AddOutcome,
)
    requires
        is_named_once_at_most(before, pointer.name),
        is_registered(before, after, pointer, outcome),
    ensures
        is_named_once_at_most(after, pointer.name),
{
    assert forall|i: int, j: int| 0 <= i < j < after.len() implies (#[trigger] after[i]).name
        != pointer.name || (#[trigger] after[j]).name != pointer.name by {
        assert(before[i].name != pointer.name || j == before.len() || before[j].name
            != pointer.name);
    }
}

/// A project that was registered is found under its name, where it was put.
pub proof fn registered_is_found(
    before: Seq<ProjectPointerView>,
    after: Seq<ProjectPointerView>,
    pointer: ProjectPointerView,
    outcome: AddOutcome,
)
    requires
        is_registered(before, after, pointer, outcome),
    ensures
        exists|at: int| #[trigger]
            is_first_named(after, pointer.name, at) && after[at] == pointer,
{
    if outcome is Updated {
        let at = choose|at: int| #[trigger]
            is_first_named(before, pointer.name, at) && after == before.update(at, pointer);
        assert forall|i: int| 0 <= i < at implies (#[trigger] after[i]).name != pointer.name by {
            assert(before[i].name != pointer.name);
        }
        assert(is_first_named(after, pointer.name, at));
    } else {
        let at = before.len() as int;
        assert forall|i: int| 0 <= i < at implies (#[trigger] after[i]).name != pointer.name by {
            assert(before[i].name != pointer.name);
        }
        assert(is_first_named(after, pointer.name, at));
    }
}

/// Registering the same project once more changes nothing, and says that it
/// was there already.
pub proof fn registering_twice_is_once(
    before: Seq<ProjectPointerView>,
    after: Seq<ProjectPointerView>,
    again: Seq<ProjectPointerView>,
    pointer: ProjectPointerView,
    first: AddOutcome,
    second: AddOutcome,
)
    requires
        is_registered(before, after, pointer, first),
        is_registered(after, again, pointer, second),
    ensures
        again == after,
        second == AddOutcome::Updated,
{
    registered_is_found(before, after, pointer, first);
    let at = choose|at: int| #[trigger]
        is_first_named(after, pointer.name, at) && after[at] == pointer;
    if second is Added {
        assert(after[at].name != pointer.name);
    } else {
        let other = choose|other: int| #[trigger]
            is_first_named(after, pointer.name, other) && again == after.update(other, pointer);
        if other < at {
            assert(after[other].name != pointer.name);
        } else if at < other {
            assert(after[at].name != pointer.name);
        }
        assert(again =~= after);
    }
}

/// A removed project is no longer found, and every other one is still there.
pub proof fn removed_is_gone(projects: Seq<ProjectPointerView>, name: Seq<char>)
    ensures
        is_unnamed(without(projects, name), name),
        forall|i: int|
            0 <= i < projects.len() && (#[trigger] projects[i]).name != name ==> without(
                projects,
                name,
            ).contains(projects[i]),
{
    let keep = |pointer: ProjectPointerView| pointer.name != name;
    assert forall|i: int| 0 <= i < without(projects, name).len() implies (
    #[trigger] without(projects, name)[i]).name != name by {
        projects.lemma_filter_pred(keep, i);
    }
    assert forall|i: int|
        0 <= i < projects.len() && (#[trigger] projects[i]).name != name implies without(
        projects,
        name,
    ).contains(projects[i]) by {
        projects.lemma_filter_contains(keep, i);
    }
}

/// A project's directory, and everything below it, belongs to a registered
/// project.
pub proof fn directories_are_contained(projects: Seq<ProjectPointerView>, at: int, below: Seq<char>)
    requires
        0 <= at < projects.len(),
        crate::paths::is_within(below, projects[at].project_dir),
    ensures
        exists|first: int| #[trigger] is_first_containing(projects, below, first) && first <= at,
    decreases at,
{
    if exists|i: int|
        0 <= i < at && crate::paths::is_within(below, (#[trigger] projects[i]).project_dir) {
        let i = choose|i: int|
            0 <= i < at && crate::paths::is_within(below, (#[trigger] projects[i]).project_dir);
        directories_are_contained(projects, i, below);
    } else {
        assert(is_first_containing(projects, below, at));
    }
}

/// Removing a name removes the entries with that name and no others, and leaves
/// the rest in their order.
pub proof fn only_the_named_are_removed(
    front: Seq<ProjectPointerView>,
    back: Seq<ProjectPointerView>,
    pointer: ProjectPointerView,
    name: Seq<char>,
)
    ensures
        without(front + back, name) == without(front, name) + without(back, name),
        pointer.name == name ==> without(seq![pointer], name) == Seq::<
            ProjectPointerView,
        >::empty(),
        pointer.name != name ==> without(seq![pointer], name) == seq![pointer],
{
    let keep = |pointer: ProjectPointerView| pointer.name != name;
    Seq::filter_distributes_over_add(front, back, keep);
    let none = Seq::<ProjectPointerView>::empty();
    assert(none.filter(keep) =~= none) by {
        reveal(Seq::filter);
    }
    none.lemma_filter_push(pointer, keep);
    assert(none.push(pointer) =~= seq![pointer]);
}

/// Registering changes the one entry of that name, or adds one at the end where
/// there is none; every other entry stays where it is.
pub proof fn registering_touches_one_entry(
    before: Seq<ProjectPointerView>,
    after: Seq<ProjectPointerView>,
    pointer: ProjectPointerView,
    outcome: AddOutcome,
    i: int,
)
    requires
        is_registered(before, after, pointer, outcome),
    ensures
        after.len() == before.len() + if outcome is Added {
            1int
        } else {
            0int
        },
        0 <= i < before.len() && before[i].name != pointer.name ==> after[i] == before[i],
        after.contains(pointer),
        outcome is Updated <==> exists|k: int|
            0 <= k < before.len() && (#[trigger] before[k]).name == pointer.name,
{
    match outcome {
        AddOutcome::Updated => {
            let at = choose|at: int| #[trigger]
                is_first_named(before, pointer.name, at) && after == before.update(at, pointer);
            assert(after[at] == pointer);
            assert(before[at].name == pointer.name);
        },
        AddOutcome::Added => {
            assert(after[before.len() as int] == pointer);
        },
    }
}

} // verus!
