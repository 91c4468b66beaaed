//! What holds of the store whatever is done with it.

use vstd::prelude::*;
use crate::db::model::{
    has_id, ids_below, ids_unique, lemma_first_is_position, lemma_max_id,
    lemma_position_is_first, max_id, Catalog, ProjectRecord,
};

verus! {

/// The identifier that the project at place `k` of `added` gets when the
/// projects of `added` are added to `c` one after the other.
pub open spec fn assigned_id(c: Catalog, added: Seq<ProjectRecord>, k: int) -> nat {
    c.add_all(added.take(k)).next_id
}

/// Projects that are added one after the other are numbered upward from
/// the counter, whatever identifiers they bring; they stand behind the
/// projects that were there, which stay as they were.
pub proof fn lemma_add_all(c: Catalog, added: Seq<ProjectRecord>)
    ensures
        c.add_all(added).next_id == c.next_id + added.len(),
        c.add_all(added).projects.len() == c.projects.len() + added.len(),
        c.add_all(added).categories == c.categories,
        c.add_all(added).db_path == c.db_path,
        forall|k: int|
            0 <= k < c.projects.len() ==> #[trigger] c.add_all(added).projects[k] == c.projects[k],
        forall|k: int|
            0 <= k < added.len() ==> #[trigger] c.add_all(added).projects[c.projects.len() + k]
                == added[k].with_id(c.next_id + k as nat),
    decreases added.len(),
{
    if added.len() > 0 {
        let before = c.add_all(added.drop_last());
        lemma_add_all(c, added.drop_last());
        assert forall|k: int| 0 <= k < added.len() implies #[trigger] c.add_all(
            added,
        ).projects[c.projects.len() + k] == added[k].with_id(c.next_id + k as nat) by {
            if k < added.len() - 1 {
                assert(before.projects[c.projects.len() + k] == added.drop_last()[k].with_id(
                    c.next_id + k as nat,
                ));
            }
        }
    }
}

/// Of two projects added one after the other, however many are added in
/// between, the later one gets the larger identifier: identifiers are
/// given in strictly increasing order, and so none is given twice. What
/// identifiers the projects bring plays no part.
pub proof fn lemma_assigned_ids_increase(c: Catalog, added: Seq<ProjectRecord>, i: int, j: int)
    requires
        0 <= i < j < added.len(),
    ensures
        assigned_id(c, added, i) < assigned_id(c, added, j),
        assigned_id(c, added, i) == c.next_id + i,
        c.add_all(added).projects[c.projects.len() + i].id == assigned_id(c, added, i),
        c.add_all(added).projects[c.projects.len() + j].id == assigned_id(c, added, j),
{
    lemma_add_all(c, added.take(i));
    lemma_add_all(c, added.take(j));
    lemma_add_all(c, added);
}

/// In a store whose identifiers are unique and below the counter, they
/// are so still after any number of additions.
pub proof fn lemma_add_all_keeps_ids_fresh(c: Catalog, added: Seq<ProjectRecord>)
    requires
        c.ids_fresh(),
    ensures
        c.add_all(added).ids_fresh(),
    decreases added.len(),
{
    if added.len() > 0 {
        lemma_add_all_keeps_ids_fresh(c, added.drop_last());
    }
}

/// A store that takes the projects and categories of another and then
/// sets its counter holds the same projects, in the same order, and the
/// same categories.
pub proof fn lemma_reload_reproduces_snapshot(saved: Catalog, fresh: Catalog)
    ensures
        fresh.load(saved.projects, saved.categories).init().projects == saved.projects,
        fresh.load(saved.projects, saved.categories).init().categories == saved.categories,
        fresh.load(saved.projects, saved.categories).init().db_path == fresh.db_path,
{
}

/// After the counter was set, it is 0 in an empty store, and otherwise
/// one more than the largest identifier held, whatever gaps the
/// identifiers leave; the next project added gets that identifier, which
/// no project of the store carries.
pub proof fn lemma_next_id_after_init(c: Catalog, project: ProjectRecord)
    ensures
        c.projects.len() == 0 ==> c.init().next_id == 0,
        c.projects.len() > 0 ==> c.init().next_id == max_id(c.projects) + 1,
        c.projects.len() > 0 ==> exists|i: int|
            0 <= i < c.projects.len() && #[trigger] c.projects[i].id + 1 == c.init().next_id,
        ids_below(c.init().projects, c.init().next_id as int),
        ids_unique(c.projects) ==> c.init().ids_fresh(),
        c.init().add_project(project).projects.last().id == c.init().next_id,
        c.init().get(c.init().next_id) is None,
{
    lemma_max_id(c.projects);
}

/// Attaching a file to a project that the store holds shows in what is
/// found under the project's identifier afterwards: the same project with
/// the new file. Attaching to an identifier that no project carries
/// changes nothing.
pub proof fn lemma_attach_then_get(c: Catalog, id: nat, path: Seq<char>)
    ensures
        match c.get(id) {
            Some(project) => {
                &&& c.attach_file(id, path).get(id) == Some(project.with_file(path))
                &&& c.attach_file(id, path).file_path(id) == Some(path)
            },
            None => c.attach_file(id, path) == c,
        },
{
    lemma_position_is_first(c.projects, id);
    match c.position(id) {
        Some(i) => {
            lemma_first_is_position(c.attach_file(id, path).projects, id, i);
        },
        None => {},
    }
}

/// Removing an identifier that no project carries changes nothing; the
/// number of projects stays the same.
pub proof fn lemma_remove_unknown(c: Catalog, id: nat)
    requires
        c.get(id) is None,
    ensures
        c.remove_by_id(id) == c,
        c.remove_by_id(id).projects.len() == c.projects.len(),
{
}

/// In a store whose identifiers are unique, a removed project is found no
/// more, one project fewer is held, and every other project is found as
/// before.
pub proof fn lemma_remove_then_get(c: Catalog, id: nat, other: nat)
    requires
        ids_unique(c.projects),
        c.get(id) is Some,
        other != id,
    ensures
        c.remove_by_id(id).get(id) is None,
        c.remove_by_id(id).projects.len() == c.projects.len() - 1,
        c.remove_by_id(id).get(other) == c.get(other),
{
    lemma_position_is_first(c.projects, id);
    lemma_position_is_first(c.projects, other);
    let p = c.position(id)->0;
    let after = c.remove_by_id(id).projects;
    match c.position(other) {
        Some(q) => {
            lemma_first_is_position(after, other, if q < p { q } else { q - 1 });
        },
        None => {},
    }
}

/// A project that was added is found under the identifier it got, as it
/// was given but for that identifier, in a store whose identifiers were
/// below the counter.
pub proof fn lemma_add_then_get(c: Catalog, project: ProjectRecord)
    requires
        ids_below(c.projects, c.next_id as int),
    ensures
        c.add_project(project).get(c.next_id) == Some(project.with_id(c.next_id)),
{
    lemma_first_is_position(c.add_project(project).projects, c.next_id, c.projects.len() as int);
}

/// Taking out a project that was just added leaves the projects that
/// were there before, in a store whose identifiers were below the
/// counter. The counter does not go back: the identifier is not given
/// again.
pub proof fn lemma_add_then_remove(c: Catalog, project: ProjectRecord)
    requires
        ids_below(c.projects, c.next_id as int),
    ensures
        c.add_project(project).remove_by_id(c.next_id).projects == c.projects,
        c.add_project(project).remove_by_id(c.next_id).categories == c.categories,
        c.add_project(project).remove_by_id(c.next_id).next_id == c.next_id + 1,
{
    lemma_first_is_position(c.add_project(project).projects, c.next_id, c.projects.len() as int);
    assert(c.projects.push(project.with_id(c.next_id)).remove(c.projects.len() as int)
        =~= c.projects);
}

/// Adding a project to a store with fresh identifiers leaves them fresh.
pub proof fn lemma_add_keeps_ids_fresh(c: Catalog, project: ProjectRecord)
    requires
        c.ids_fresh(),
    ensures
        c.add_project(project).ids_fresh(),
{
}

/// Replacing a project by one that carries the same identifier leaves
/// fresh identifiers fresh; so does the addition that takes the place of
/// the replacement where no project carries the identifier.
pub proof fn lemma_update_keeps_ids_fresh(c: Catalog, id: nat, project: ProjectRecord)
    requires
        c.ids_fresh(),
        c.position(id) is Some ==> project.id == id,
    ensures
        c.update_project(id, project).ids_fresh(),
{
    lemma_position_is_first(c.projects, id);
}

/// Removing a project leaves fresh identifiers fresh.
pub proof fn lemma_remove_keeps_ids_fresh(c: Catalog, id: nat)
    requires
        c.ids_fresh(),
    ensures
        c.remove_by_id(id).ids_fresh(),
{
    lemma_position_is_first(c.projects, id);
}

/// Attaching a file leaves fresh identifiers fresh.
pub proof fn lemma_attach_keeps_ids_fresh(c: Catalog, id: nat, path: Seq<char>)
    requires
        c.ids_fresh(),
    ensures
        c.attach_file(id, path).ids_fresh(),
{
    lemma_position_is_first(c.projects, id);
}

/// A list of unique identifiers, all below `bound`, holds at most `bound`
/// projects.
pub proof fn lemma_unique_ids_are_few(projects: Seq<ProjectRecord>, bound: nat)
    requires
        ids_unique(projects),
        ids_below(projects, bound as int),
    ensures
        projects.len() <= bound,
    decreases bound,
{
    if projects.len() > 0 {
        assert(projects[0].id < bound);
        let top = (bound - 1) as nat;
        if has_id(projects, top) {
            let k = choose|k: int| 0 <= k < projects.len() && #[trigger] projects[k].id == top;
            lemma_unique_ids_are_few(projects.remove(k), top);
        } else {
            lemma_unique_ids_are_few(projects, top);
        }
    }
}

/// Numbering the projects anew leaves fresh identifiers fresh: the places
/// are unique, and there are no more places than the counter has given
/// out identifiers.
pub proof fn lemma_reinitialize_keeps_ids_fresh(c: Catalog)
    requires
        c.ids_fresh(),
    ensures
        c.reinitialize_ids().ids_fresh(),
{
    lemma_unique_ids_are_few(c.projects, c.next_id);
}

} // verus!
