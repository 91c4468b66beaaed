//! The catalog as mathematics: what a store holds and what each operation
//! makes of it.

use vstd::prelude::*;

verus! {

/// A project as plain values.
#[verifier::ext_equal]
pub struct ProjectRecord {
    pub id: nat,
    pub title: Seq<char>,
    pub author: Seq<char>,
    pub academic_year: int,
    pub is_diploma: bool,
    pub category: Seq<char>,
    pub files_link: Option<Seq<char>>,
    pub internal_filename: Option<Seq<char>>,
}

impl ProjectRecord {
    /// The same project under the identifier `id`.
    pub open spec fn with_id(self, id: nat) -> ProjectRecord {
        ProjectRecord { id, ..self }
    }

    /// The same project with `path` as its attached file.
    pub open spec fn with_file(self, path: Seq<char>) -> ProjectRecord {
        ProjectRecord { internal_filename: Some(path), ..self }
    }

    /// The same project with no attached file.
    pub open spec fn without_file(self) -> ProjectRecord {
        ProjectRecord { internal_filename: None, ..self }
    }

    /// Whether the project carries at most one of a link and a file.
    pub open spec fn link_or_file(self) -> bool {
        self.files_link is None || self.internal_filename is None
    }
}

/// Whether some project of `projects` carries `id`.
pub open spec fn has_id(projects: Seq<ProjectRecord>, id: nat) -> bool {
    exists|i: int| 0 <= i < projects.len() && #[trigger] projects[i].id == id
}

/// Whether `i` is the place of the first project of `projects` that carries `id`.
pub open spec fn is_first_with_id(projects: Seq<ProjectRecord>, id: nat, i: int) -> bool {
    &&& 0 <= i < projects.len()
    &&& projects[i].id == id
    &&& forall|j: int| 0 <= j < i ==> #[trigger] projects[j].id != id
}

/// The place of the first project of `projects` that carries `id`.
pub open spec fn position_of(projects: Seq<ProjectRecord>, id: nat) -> Option<int> {
    if has_id(projects, id) {
        Some(choose|i: int| is_first_with_id(projects, id, i))
    } else {
        None
    }
}

/// Whether no identifier occurs twice in `projects`.
pub open spec fn ids_unique(projects: Seq<ProjectRecord>) -> bool {
    forall|i: int, j: int|
        0 <= i < j < projects.len() ==> #[trigger] projects[i].id != #[trigger] projects[j].id
}

/// Whether every identifier in `projects` is below `bound`.
pub open spec fn ids_below(projects: Seq<ProjectRecord>, bound: int) -> bool {
    forall|i: int| 0 <= i < projects.len() ==> #[trigger] projects[i].id < bound
}

/// The largest identifier in `projects`, and -1 where there is none.
pub open spec fn max_id(projects: Seq<ProjectRecord>) -> int
    decreases projects.len(),
{
    if projects.len() == 0 {
        -1
    } else {
        let rest = max_id(projects.drop_last());
        if projects.last().id > rest {
            projects.last().id as int
        } else {
            rest
        }
    }
}

/// The identifier that follows the largest one in `projects`: 0 for an
/// empty list.
pub open spec fn next_free_id(projects: Seq<ProjectRecord>) -> nat {
    (max_id(projects) + 1) as nat
}

/// `projects` with each identifier replaced by the project's place.
pub open spec fn renumbered(projects: Seq<ProjectRecord>) -> Seq<ProjectRecord> {
    Seq::new(projects.len(), |i: int| projects[i].with_id(i as nat))
}

/// What a store holds.
#[verifier::ext_equal]
pub struct Catalog {
    /// The projects, oldest first.
    pub projects: Seq<ProjectRecord>,
    /// The category names.
    pub categories: Set<Seq<char>>,
    /// The identifier that the next added project gets.
    pub next_id: nat,
    /// The directory that the store is kept in.
    pub db_path: Seq<char>,
}

impl Catalog {
    /// The store with no project and no category, kept in `db_path`.
    pub open spec fn empty(db_path: Seq<char>) -> Catalog {
        Catalog { projects: Seq::empty(), categories: Set::empty(), next_id: 0, db_path }
    }

    /// The place of the first project that carries `id`.
    pub open spec fn position(self, id: nat) -> Option<int> {
        position_of(self.projects, id)
    }

    /// The first project that carries `id`.
    pub open spec fn get(self, id: nat) -> Option<ProjectRecord> {
        match self.position(id) {
            Some(i) => Some(self.projects[i]),
            None => None,
        }
    }

    /// The attached file of the first project that carries `id`.
    pub open spec fn file_path(self, id: nat) -> Option<Seq<char>> {
        match self.get(id) {
            Some(p) => p.internal_filename,
            None => None,
        }
    }

    /// Whether identifiers are unique and all below the next one.
    pub open spec fn ids_fresh(self) -> bool {
        ids_unique(self.projects) && ids_below(self.projects, self.next_id as int)
    }

    /// The store after `project` was added under the next identifier.
    pub open spec fn add_project(self, project: ProjectRecord) -> Catalog {
        Catalog {
            projects: self.projects.push(project.with_id(self.next_id)),
            next_id: self.next_id + 1,
            ..self
        }
    }

    /// The store after the first project that carries `id` was replaced by
    /// `project` as given; where none carries `id`, `project` is added.
    pub open spec fn update_project(self, id: nat, project: ProjectRecord) -> Catalog {
        match self.position(id) {
            Some(i) => Catalog { projects: self.projects.update(i, project), ..self },
            None => self.add_project(project),
        }
    }

    /// The store without the first project that carries `id`.
    pub open spec fn remove_by_id(self, id: nat) -> Catalog {
        match self.position(id) {
            Some(i) => Catalog { projects: self.projects.remove(i), ..self },
            None => self,
        }
    }

    /// The store after `path` was attached to the first project that
    /// carries `id`.
    pub open spec fn attach_file(self, id: nat, path: Seq<char>) -> Catalog {
        match self.position(id) {
            Some(i) => Catalog {
                projects: self.projects.update(i, self.projects[i].with_file(path)),
                ..self
            },
            None => self,
        }
    }

    /// The store with the category `name`.
    pub open spec fn add_category(self, name: Seq<char>) -> Catalog {
        Catalog { categories: self.categories.insert(name), ..self }
    }

    /// The store holding `projects` and `categories` in place of its own.
    pub open spec fn load(self, projects: Seq<ProjectRecord>, categories: Set<Seq<char>>) -> Catalog {
        Catalog { projects, categories, ..self }
    }

    /// The store with its next identifier set past the largest one held.
    pub open spec fn init(self) -> Catalog {
        Catalog { next_id: next_free_id(self.projects), ..self }
    }

    /// The store with its projects numbered by their places.
    pub open spec fn reinitialize_ids(self) -> Catalog {
        Catalog { projects: renumbered(self.projects), ..self }
    }

    /// The store after each project of `projects` was added in turn.
    pub open spec fn add_all(self, projects: Seq<ProjectRecord>) -> Catalog
        decreases projects.len(),
    {
        if projects.len() == 0 {
            self
        } else {
            self.add_all(projects.drop_last()).add_project(projects.last())
        }
    }
}

/// The first project that carries `id` is found at one place only.
pub proof fn lemma_position_is_first(projects: Seq<ProjectRecord>, id: nat)
    ensures
        match position_of(projects, id) {
            Some(i) => is_first_with_id(projects, id, i),
            None => forall|i: int| 0 <= i < projects.len() ==> #[trigger] projects[i].id != id,
        },
{
    if has_id(projects, id) {
        let w = choose|i: int| 0 <= i < projects.len() && #[trigger] projects[i].id == id;
        lemma_first_exists(projects, id, w);
    }
}

/// Where some project carries `id`, one of them is the first.
proof fn lemma_first_exists(projects: Seq<ProjectRecord>, id: nat, w: int)
    requires
        0 <= w < projects.len(),
        projects[w].id == id,
    ensures
        exists|i: int| is_first_with_id(projects, id, i),
    decreases w,
{
    if forall|j: int| 0 <= j < w ==> #[trigger] projects[j].id != id {
        assert(is_first_with_id(projects, id, w));
    } else {
        let j = choose|j: int| 0 <= j < w && #[trigger] projects[j].id == id;
        lemma_first_exists(projects, id, j);
    }
}

/// A place that holds the first project carrying `id` is the position of `id`.
pub proof fn lemma_first_is_position(projects: Seq<ProjectRecord>, id: nat, i: int)
    requires
        is_first_with_id(projects, id, i),
    ensures
        position_of(projects, id) == Some(i),
{
}

/// Every identifier is at most the largest; a list that is not empty holds
/// its largest identifier.
pub proof fn lemma_max_id(projects: Seq<ProjectRecord>)
    ensures
        forall|i: int| 0 <= i < projects.len() ==> #[trigger] projects[i].id <= max_id(projects),
        projects.len() == 0 ==> max_id(projects) == -1,
        max_id(projects) >= -1,
        projects.len() > 0 ==> exists|i: int|
            0 <= i < projects.len() && #[trigger] projects[i].id == max_id(projects),
    decreases projects.len(),
{
    if projects.len() > 0 {
        let rest = projects.drop_last();
        lemma_max_id(rest);
        assert forall|i: int| 0 <= i < projects.len() implies #[trigger] projects[i].id <= max_id(
            projects,
        ) by {
            if i < rest.len() {
                assert(rest[i].id <= max_id(rest));
            }
        }
    }
}

} // verus!
