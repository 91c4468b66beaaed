//! The project store: the records, the categories and the identifier counter.

pub mod laws;
pub mod model;

use vstd::prelude::*;
use vstd::string::*;
use crate::db::model::{next_free_id, Catalog, ProjectRecord};
use crate::text::text_of;

verus! {

/// One project of the catalog.
#[derive(Debug)]
pub struct ProjectInfo {
    /// Assigned by the store; what a caller puts here is ignored on creation.
    pub id: usize,
    pub title: String,
    pub author: String,
    pub academic_year: i32,
    pub is_diploma: bool,
    pub category: String,
    /// A link to where the project's files are kept elsewhere.
    pub files_link: Option<String>,
    /// The path of the file stored for the project.
    pub internal_filename: Option<String>,
}

impl View for ProjectInfo {
    type V = ProjectRecord;

    open spec fn view(&self) -> ProjectRecord {
        ProjectRecord {
            id: self.id as nat,
            title: self.title@,
            author: self.author@,
            academic_year: self.academic_year as int,
            is_diploma: self.is_diploma,
            category: self.category@,
            files_link: text_of(self.files_link),
            internal_filename: text_of(self.internal_filename),
        }
    }
}

/// A copy of an optional string.
fn clone_text(o: &Option<String>) -> (r: Option<String>)
    ensures
        r == *o,
{
    match o {
        Some(s) => Some(s.clone()),
        None => None,
    }
}

impl Clone for ProjectInfo {
    fn clone(&self) -> (r: Self)
        ensures
            r == *self,
    {
        ProjectInfo {
            id: self.id,
            title: self.title.clone(),
            author: self.author.clone(),
            academic_year: self.academic_year,
            is_diploma: self.is_diploma,
            category: self.category.clone(),
            files_link: clone_text(&self.files_link),
            internal_filename: clone_text(&self.internal_filename),
        }
    }
}

impl ProjectInfo {
    /// Does nothing: a record needs no entry of its own for its file.
    pub fn create_file_entry() {
    }
}

/// Why the store could not do what was asked.
#[derive(Debug, Clone, Copy, PartialEq, Eq, Structural)]
pub enum StoreError {
    /// Every identifier that the machine can count has been given out.
    IdSpaceExhausted,
}

/// What was found where the store's directory should be.
#[derive(Debug, Clone, Copy, PartialEq, Eq, Structural)]
pub enum DirectoryProbe {
    /// The directory is there and can be read.
    Found,
    /// There is no such directory.
    Missing,
    /// Something is there that cannot be read.
    Unreadable,
}

/// What to do at startup about the store's directory.
#[derive(Debug, Clone, Copy, PartialEq, Eq, Structural)]
pub enum Startup {
    /// Read the snapshot and load it.
    Load,
    /// Create the directory and the one for files, and save an empty snapshot.
    Create,
    /// Give up: the store cannot start.
    Abort,
}

/// The views of the projects of `v`, in order.
pub open spec fn records_of(v: Seq<ProjectInfo>) -> Seq<ProjectRecord> {
    v.map_values(|p: ProjectInfo| p@)
}

/// The characters of the strings of `v`, in order.
pub open spec fn names_of(v: Seq<String>) -> Seq<Seq<char>> {
    v.map_values(|s: String| s@)
}

/// The store: projects in the order they were added, category names, and
/// the counter that numbers new projects.
#[derive(Debug)]
pub struct MyApp {
    projects: Vec<ProjectInfo>,
    categories: Vec<String>,
    db_path: String,
    next_id: usize,
}

impl View for MyApp {
    type V = Catalog;

    closed spec fn view(&self) -> Catalog {
        Catalog {
            projects: records_of(self.projects@),
            categories: names_of(self.categories@).to_set(),
            next_id: self.next_id as nat,
            db_path: self.db_path@,
        }
    }
}

impl MyApp {
    /// No category name is held twice.
    #[verifier::type_invariant]
    spec fn categories_distinct(self) -> bool {
        names_of(self.categories@).no_duplicates()
    }

    /// An empty store kept in `./database`.
    pub fn new() -> (store: Self)
        ensures
            store@ == Catalog::empty("./database"@),
    {
        MyApp {
            projects: Vec::new(),
            categories: Vec::new(),
            db_path: String::from_str("./database"),
            next_id: 0,
        }
    }

    /// The directory that the store is kept in.
    pub fn db_path(&self) -> (path: &str)
        ensures
            path@ == self@.db_path,
    {
        self.db_path.as_str()
    }

    /// The identifier that the next added project gets.
    pub fn next_id(&self) -> (id: usize)
        ensures
            id == self@.next_id,
    {
        self.next_id
    }

    /// Decides what startup does, from what was found at the store's
    /// directory: an existing directory is loaded, a missing one is created,
    /// and anything else stops the start.
    pub fn prepare_database(&self, probe: DirectoryProbe) -> (step: Startup)
        ensures
            step == match probe {
                DirectoryProbe::Found => Startup::Load,
                DirectoryProbe::Missing => Startup::Create,
                DirectoryProbe::Unreadable => Startup::Abort,
            },
    {
        match probe {
            DirectoryProbe::Found => Startup::Load,
            DirectoryProbe::Missing => Startup::Create,
            DirectoryProbe::Unreadable => Startup::Abort,
        }
    }

    /// The place of the first project that carries `id`.
    fn find_index(&self, id: usize) -> (r: Option<usize>)
        ensures
            match r {
                Some(i) => self@.position(id as nat) == Some(i as int) && i < self.projects.len(),
                None => self@.position(id as nat) is None,
            },
    {
        let mut i: usize = 0;
        while i < self.projects.len()
            invariant
                i <= self.projects.len(),
                forall|j: int| 0 <= j < i ==> self.projects[j].id != id,
            decreases self.projects.len() - i,
        {
            if self.projects[i].id == id {
                proof {
                    model::lemma_first_is_position(self@.projects, id as nat, i as int);
                }
                return Some(i);
            }
            i += 1;
        }
        None
    }

    /// The first project that carries `id`.
    pub fn get_project_by_id(&self, id: usize) -> (r: Option<&ProjectInfo>)
        ensures
            match r {
                Some(p) => self@.get(id as nat) == Some(p@),
                None => self@.get(id as nat) is None,
            },
    {
        match self.find_index(id) {
            Some(i) => Some(&self.projects[i]),
            None => None,
        }
    }

    /// The first project that carries `id`, to be changed in place. What the
    /// caller leaves there takes the project's place in the store.
    pub fn get_mut_project_by_id(&mut self, id: usize) -> (r: Option<&mut ProjectInfo>)
        ensures
            match r {
                Some(p) => {
                    &&& old(self)@.position(id as nat) matches Some(i)
                    &&& (*p)@ == old(self)@.projects[i]
                    &&& final(self)@ == (Catalog {
                        projects: old(self)@.projects.update(i, (*final(p))@),
                        ..old(self)@
                    })
                },
                None => old(self)@.position(id as nat) is None && final(self)@ == old(self)@,
            },
    {
        match self.find_index(id) {
            Some(i) => {
                proof {
                    use_type_invariant(&*self);
                }
                Some(&mut self.projects[i])
            },
            None => None,
        }
    }

    /// Adds a copy of `project` under the next identifier and returns that
    /// identifier; the identifier that `project` brings is ignored. Fails,
    /// and changes nothing, only when the counter cannot go further.
    pub fn add_project(&mut self, project: &ProjectInfo) -> (r: Result<usize, StoreError>)
        ensures
            match r {
                Ok(id) => {
                    &&& old(self)@.next_id < usize::MAX
                    &&& id == old(self)@.next_id
                    &&& final(self)@ == old(self)@.add_project(project@)
                },
                Err(e) => {
                    &&& old(self)@.next_id == usize::MAX
                    &&& e == StoreError::IdSpaceExhausted
                    &&& final(self)@ == old(self)@
                },
            },
            old(self)@.ids_fresh() ==> final(self)@.ids_fresh(),
    {
        proof {
            use_type_invariant(&*self);
        }
        if self.next_id == usize::MAX {
            return Err(StoreError::IdSpaceExhausted);
        }
        let id = self.next_id;
        let mut record = project.clone();
        record.id = id;
        self.next_id = id + 1;
        let mut projects: Vec<ProjectInfo> = Vec::new();
        std::mem::swap(&mut projects, &mut self.projects);
        projects.push(record);
        self.projects = projects;
        Ok(id)
    }

    /// Puts a copy of `project`, as given, in the place of the first project
    /// that carries `id`. Where none carries `id`, `project` is added as a
    /// new one, under the next identifier and not under `id`.
    pub fn update_project(&mut self, id: usize, project: &ProjectInfo) -> (r: Result<
        (),
        StoreError,
    >)
        ensures
            match r {
                Ok(_) => {
                    &&& old(self)@.position(id as nat) is Some || old(self)@.next_id < usize::MAX
                    &&& final(self)@ == old(self)@.update_project(id as nat, project@)
                },
                Err(e) => {
                    &&& old(self)@.position(id as nat) is None
                    &&& old(self)@.next_id == usize::MAX
                    &&& e == StoreError::IdSpaceExhausted
                    &&& final(self)@ == old(self)@
                },
            },
            old(self)@.ids_fresh() && (old(self)@.position(id as nat) is Some ==> project.id == id)
                ==> final(self)@.ids_fresh(),
    {
        proof {
            use_type_invariant(&*self);
        }
        match self.find_index(id) {
            Some(i) => {
                let record = project.clone();
                let mut projects: Vec<ProjectInfo> = Vec::new();
                std::mem::swap(&mut projects, &mut self.projects);
                projects.set(i, record);
                self.projects = projects;
                proof {
                    assert(records_of(self.projects@) =~= records_of(old(self).projects@).update(
                        i as int,
                        project@,
                    ));
                    if old(self)@.ids_fresh() && project.id == id {
                        laws::lemma_update_keeps_ids_fresh(old(self)@, id as nat, project@);
                    }
                }
                Ok(())
            },
            None => {
                match self.add_project(project) {
                    Ok(_) => Ok(()),
                    Err(e) => Err(e),
                }
            },
        }
    }

    /// Removes the first project that carries `id`; a store that holds no
    /// such project stays as it is.
    pub fn remove_by_id(&mut self, id: usize)
        ensures
            final(self)@ == old(self)@.remove_by_id(id as nat),
            old(self)@.position(id as nat) is None ==> final(self)@ == old(self)@,
            old(self)@.ids_fresh() ==> final(self)@.ids_fresh(),
    {
        proof {
            use_type_invariant(&*self);
        }
        match self.find_index(id) {
            Some(i) => {
                let mut projects: Vec<ProjectInfo> = Vec::new();
                std::mem::swap(&mut projects, &mut self.projects);
                projects.remove(i);
                self.projects = projects;
                proof {
                    assert(records_of(self.projects@) =~= records_of(old(self).projects@).remove(
                        i as int,
                    ));
                }
            },
            None => {},
        }
    }

    /// Records `filepath` as the file of the first project that carries
    /// `id`; a store that holds no such project stays as it is.
    pub fn attatch_file(&mut self, id: usize, filepath: &str)
        ensures
            final(self)@ == old(self)@.attach_file(id as nat, filepath@),
            old(self)@.position(id as nat) is None ==> final(self)@ == old(self)@,
            old(self)@.ids_fresh() ==> final(self)@.ids_fresh(),
    {
        proof {
            use_type_invariant(&*self);
        }
        match self.find_index(id) {
            Some(i) => {
                let mut projects: Vec<ProjectInfo> = Vec::new();
                std::mem::swap(&mut projects, &mut self.projects);
                let record = &mut projects[i];
                record.internal_filename = Some(filepath.to_owned());
                self.projects = projects;
                proof {
                    assert(records_of(self.projects@) =~= records_of(old(self).projects@).update(
                        i as int,
                        old(self)@.projects[i as int].with_file(filepath@),
                    ));
                }
            },
            None => {},
        }
    }

    /// The file of the first project that carries `id`.
    pub fn get_file_path(&self, id: usize) -> (r: Option<&str>)
        ensures
            match r {
                Some(path) => self@.file_path(id as nat) == Some(path@),
                None => self@.file_path(id as nat) is None,
            },
    {
        match self.find_index(id) {
            Some(i) => match &self.projects[i].internal_filename {
                Some(path) => Some(path.as_str()),
                None => None,
            },
            None => None,
        }
    }

    /// Adds the category `category`; a name that is already held is not
    /// held twice.
    pub fn add_category(&mut self, category: &str)
        ensures
            final(self)@ == old(self)@.add_category(category@),
    {
        proof {
            use_type_invariant(&*self);
        }
        let name = category.to_owned();
        let mut i: usize = 0;
        while i < self.categories.len()
            invariant
                i <= self.categories.len(),
                *self == *old(self),
                name@ == category@,
                forall|j: int| 0 <= j < i ==> self.categories[j]@ != name@,
            decreases self.categories.len() - i,
        {
            if self.categories[i] == name {
                assert(names_of(self.categories@)[i as int] == name@);
                return ;
            }
            i += 1;
        }
        let mut categories: Vec<String> = Vec::new();
        std::mem::swap(&mut categories, &mut self.categories);
        categories.push(name);
        proof {
            let before = names_of(old(self).categories@);
            let after = names_of(categories@);
            assert(after =~= before.push(name@));
            before.lemma_push_to_set_commute(name@);
        }
        self.categories = categories;
    }

    /// The category names, each once.
    pub fn get_categories(&self) -> (names: &Vec<String>)
        ensures
            names_of(names@).to_set() == self@.categories,
            names_of(names@).no_duplicates(),
    {
        proof {
            use_type_invariant(self);
        }
        &self.categories
    }

    /// The projects, in the order they were added.
    pub fn get_database_as_ref(&self) -> (projects: &Vec<ProjectInfo>)
        ensures
            records_of(projects@) == self@.projects,
    {
        &self.projects
    }

    /// Takes `projects` and `categories`, as read from a snapshot, in place
    /// of what the store holds. A category name that comes twice is kept
    /// once. The counter is left as it is: `init` sets it.
    pub fn load_projects(&mut self, projects: Vec<ProjectInfo>, categories: Vec<String>)
        ensures
            final(self)@ == old(self)@.load(
                records_of(projects@),
                names_of(categories@).to_set(),
            ),
    {
        proof {
            use_type_invariant(&*self);
        }
        self.projects = projects;
        self.categories = Vec::new();
        let mut i: usize = 0;
        while i < categories.len()
            invariant
                i <= categories.len(),
                self@.projects == records_of(projects@),
                self@.next_id == old(self)@.next_id,
                self@.db_path == old(self)@.db_path,
                self@.categories == names_of(categories@.take(i as int)).to_set(),
            decreases categories.len() - i,
        {
            self.add_category(categories[i].as_str());
            proof {
                let before = names_of(categories@.take(i as int));
                let after = names_of(categories@.take(i + 1));
                assert(after =~= before.push(categories[i as int]@));
                before.lemma_push_to_set_commute(categories[i as int]@);
            }
            i += 1;
        }
        assert(categories@.take(categories.len() as int) =~= categories@);
    }

    /// Sets the counter to one more than the largest identifier held, and
    /// to 0 in an empty store, so that new projects get identifiers that no
    /// project of the store carries. Fails, and changes nothing, where the
    /// largest identifier is the largest number the machine can count.
    pub fn init(&mut self) -> (r: Result<(), StoreError>)
        ensures
            match r {
                Ok(_) => {
                    &&& next_free_id(old(self)@.projects) <= usize::MAX
                    &&& final(self)@ == old(self)@.init()
                },
                Err(e) => {
                    &&& next_free_id(old(self)@.projects) > usize::MAX
                    &&& e == StoreError::IdSpaceExhausted
                    &&& final(self)@ == old(self)@
                },
            },
            r is Ok <==> model::ids_below(old(self)@.projects, usize::MAX as int),
    {
        proof {
            use_type_invariant(&*self);
        }
        let ghost records = self@.projects;
        let mut next: usize = 0;
        let mut i: usize = 0;
        while i < self.projects.len()
            invariant
                i <= self.projects.len(),
                *self == *old(self),
                records == self@.projects,
                next == next_free_id(records.take(i as int)),
                model::ids_below(records.take(i as int), usize::MAX as int),
            decreases self.projects.len() - i,
        {
            let id = self.projects[i].id;
            proof {
                assert(records[i as int].id == id);
                assert(records.take(i + 1).drop_last() =~= records.take(i as int));
            }
            if id == usize::MAX {
                proof {
                    model::lemma_max_id(records);
                }
                return Err(StoreError::IdSpaceExhausted);
            }
            if id >= next {
                next = id + 1;
            }
            i += 1;
        }
        assert(records.take(self.projects.len() as int) =~= records);
        self.next_id = next;
        Ok(())
    }

    /// Numbers the projects anew by their places, the first one 0. The
    /// counter is left as it is. Identifiers written down elsewhere, in an
    /// older snapshot or in a link, no longer name the same projects.
    pub fn reinitialize_ids(&mut self)
        ensures
            final(self)@ == old(self)@.reinitialize_ids(),
            old(self)@.ids_fresh() ==> final(self)@.ids_fresh(),
    {
        proof {
            use_type_invariant(&*self);
        }
        let mut projects: Vec<ProjectInfo> = Vec::new();
        std::mem::swap(&mut projects, &mut self.projects);
        let ghost before = records_of(projects@);
        let mut i: usize = 0;
        while i < projects.len()
            invariant
                i <= projects.len(),
                projects.len() == before.len(),
                forall|j: int| 0 <= j < i ==> #[trigger] projects[j]@ == before[j].with_id(j as nat),
                forall|j: int| i <= j < projects.len() ==> #[trigger] projects[j]@ == before[j],
            decreases projects.len() - i,
        {
            assert(projects[i as int]@ == before[i as int]);
            let record = &mut projects[i];
            record.id = i;
            i += 1;
        }
        self.projects = projects;
        proof {
            assert(records_of(self.projects@) =~= model::renumbered(before));
            if old(self)@.ids_fresh() {
                laws::lemma_reinitialize_keeps_ids_fresh(old(self)@);
            }
        }
    }
}

} // verus!
