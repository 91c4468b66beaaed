use project_catalog::db::{DirectoryProbe, MyApp, ProjectInfo, Startup, StoreError};

fn project(title: &str) -> ProjectInfo {
    ProjectInfo {
        id: 99,
        title: title.to_string(),
        author: "someone".to_string(),
        academic_year: 2021,
        is_diploma: false,
        category: "web".to_string(),
        files_link: None,
        internal_filename: None,
    }
}

fn project_with_id(id: usize, title: &str) -> ProjectInfo {
    let mut p = project(title);
    p.id = id;
    p
}

fn ids(store: &MyApp) -> Vec<usize> {
    store.get_database_as_ref().iter().map(|p| p.id).collect()
}

fn titles(store: &MyApp) -> Vec<String> {
    store.get_database_as_ref().iter().map(|p| p.title.clone()).collect()
}

fn same_project(a: &ProjectInfo, b: &ProjectInfo) -> bool {
    a.id == b.id
        && a.title == b.title
        && a.author == b.author
        && a.academic_year == b.academic_year
        && a.is_diploma == b.is_diploma
        && a.category == b.category
        && a.files_link == b.files_link
        && a.internal_filename == b.internal_filename
}

#[test]
fn new_store_is_empty_and_kept_in_database() {
    let store = MyApp::new();
    assert_eq!(store.db_path(), "./database");
    assert_eq!(store.next_id(), 0);
    assert!(store.get_database_as_ref().is_empty());
    assert!(store.get_categories().is_empty());
}

#[test]
fn first_two_projects_get_ids_zero_and_one() {
    let mut store = MyApp::new();
    assert_eq!(store.add_project(&project("A")), Ok(0));
    assert_eq!(store.add_project(&project("B")), Ok(1));
    assert_eq!(ids(&store), vec![0, 1]);
    assert_eq!(titles(&store), vec!["A".to_string(), "B".to_string()]);
}

#[test]
fn caller_supplied_id_is_ignored() {
    let mut store = MyApp::new();
    assert_eq!(store.add_project(&project_with_id(7, "A")), Ok(0));
    assert_eq!(store.add_project(&project_with_id(0, "B")), Ok(1));
    assert_eq!(store.add_project(&project_with_id(0, "C")), Ok(2));
    assert_eq!(ids(&store), vec![0, 1, 2]);
    assert!(store.get_project_by_id(7).is_none());
}

#[test]
fn added_record_keeps_every_other_field() {
    let mut store = MyApp::new();
    let mut p = project("Thesis");
    p.author = "Ada".to_string();
    p.academic_year = 1843;
    p.is_diploma = true;
    p.category = "engines".to_string();
    p.files_link = Some("https://example.org/thesis".to_string());
    p.internal_filename = Some("kept.pdf".to_string());
    assert_eq!(store.add_project(&p), Ok(0));
    let mut expected = p.clone();
    expected.id = 0;
    assert!(same_project(store.get_project_by_id(0).unwrap(), &expected));
}

#[test]
fn ids_strictly_increase_over_many_adds() {
    let mut store = MyApp::new();
    let mut last: Option<usize> = None;
    for n in 0..50usize {
        let id = store.add_project(&project_with_id(50 - n, "P")).unwrap();
        if let Some(previous) = last {
            assert!(id > previous);
        }
        assert_eq!(id, n);
        last = Some(id);
    }
    let all = ids(&store);
    for i in 0..all.len() {
        for j in (i + 1)..all.len() {
            assert_ne!(all[i], all[j]);
        }
    }
}

#[test]
fn ids_keep_increasing_after_a_removal() {
    let mut store = MyApp::new();
    store.add_project(&project("A")).unwrap();
    store.add_project(&project("B")).unwrap();
    store.remove_by_id(1);
    assert_eq!(store.add_project(&project("C")), Ok(2));
    assert_eq!(ids(&store), vec![0, 2]);
}

#[test]
fn get_project_by_id_returns_absence_for_unknown_id() {
    let mut store = MyApp::new();
    store.add_project(&project("A")).unwrap();
    assert!(store.get_project_by_id(1).is_none());
    assert_eq!(store.get_project_by_id(0).unwrap().title, "A");
}

#[test]
fn get_mut_project_by_id_changes_the_record_in_place() {
    let mut store = MyApp::new();
    store.add_project(&project("A")).unwrap();
    store.add_project(&project("B")).unwrap();
    match store.get_mut_project_by_id(1) {
        Some(p) => p.title = "B2".to_string(),
        None => panic!("project 1 is there"),
    }
    assert!(store.get_mut_project_by_id(5).is_none());
    assert_eq!(titles(&store), vec!["A".to_string(), "B2".to_string()]);
}

#[test]
fn update_project_replaces_the_record_in_place() {
    let mut store = MyApp::new();
    store.add_project(&project("A")).unwrap();
    store.add_project(&project("B")).unwrap();
    store.add_project(&project("C")).unwrap();
    assert_eq!(store.update_project(1, &project_with_id(1, "B2")), Ok(()));
    assert_eq!(ids(&store), vec![0, 1, 2]);
    assert_eq!(titles(&store), vec!["A".to_string(), "B2".to_string(), "C".to_string()]);
    assert_eq!(store.next_id(), 3);
}

#[test]
fn update_project_stores_the_record_as_given() {
    let mut store = MyApp::new();
    store.add_project(&project("A")).unwrap();
    assert_eq!(store.update_project(0, &project_with_id(40, "A2")), Ok(()));
    assert_eq!(ids(&store), vec![40]);
    assert!(store.get_project_by_id(0).is_none());
    assert_eq!(store.get_project_by_id(40).unwrap().title, "A2");
}

#[test]
fn update_project_on_unknown_id_adds_under_a_fresh_id() {
    let mut store = MyApp::new();
    store.add_project(&project("A")).unwrap();
    assert_eq!(store.update_project(17, &project_with_id(17, "B")), Ok(()));
    assert_eq!(ids(&store), vec![0, 1]);
    assert!(store.get_project_by_id(17).is_none());
    assert_eq!(store.get_project_by_id(1).unwrap().title, "B");
    assert_eq!(store.next_id(), 2);
}

#[test]
fn remove_by_id_on_unknown_id_is_a_noop() {
    let mut store = MyApp::new();
    store.add_project(&project("A")).unwrap();
    store.add_project(&project("B")).unwrap();
    store.remove_by_id(2);
    assert_eq!(store.get_database_as_ref().len(), 2);
    assert_eq!(ids(&store), vec![0, 1]);
    assert_eq!(store.next_id(), 2);
}

#[test]
fn remove_by_id_removes_only_the_matching_record() {
    let mut store = MyApp::new();
    store.add_project(&project("A")).unwrap();
    store.add_project(&project("B")).unwrap();
    store.add_project(&project("C")).unwrap();
    store.remove_by_id(1);
    assert_eq!(ids(&store), vec![0, 2]);
    assert!(store.get_project_by_id(1).is_none());
    assert_eq!(store.get_project_by_id(2).unwrap().title, "C");
}

#[test]
fn attatch_file_on_unknown_id_is_a_noop() {
    let mut store = MyApp::new();
    store.add_project(&project("A")).unwrap();
    store.attatch_file(3, "./database/files/3/a.pdf");
    assert_eq!(store.get_database_as_ref().len(), 1);
    assert_eq!(store.get_project_by_id(0).unwrap().internal_filename, None);
    assert_eq!(store.get_file_path(3), None);
}

#[test]
fn attatch_file_shows_in_the_record_afterwards() {
    let mut store = MyApp::new();
    store.add_project(&project("A")).unwrap();
    store.add_project(&project("B")).unwrap();
    store.attatch_file(1, "./database/files/1/b.pdf");
    let found = store.get_project_by_id(1).unwrap();
    assert_eq!(found.internal_filename, Some("./database/files/1/b.pdf".to_string()));
    assert_eq!(found.title, "B");
    assert_eq!(store.get_project_by_id(0).unwrap().internal_filename, None);
    assert_eq!(store.get_file_path(1), Some("./database/files/1/b.pdf"));
    assert_eq!(store.get_file_path(0), None);
}

#[test]
fn attatch_file_replaces_an_earlier_file() {
    let mut store = MyApp::new();
    store.add_project(&project("A")).unwrap();
    store.attatch_file(0, "one");
    store.attatch_file(0, "two");
    assert_eq!(store.get_file_path(0), Some("two"));
}

#[test]
fn add_category_is_idempotent() {
    let mut store = MyApp::new();
    store.add_category("web");
    store.add_category("games");
    store.add_category("web");
    assert_eq!(store.get_categories(), &vec!["web".to_string(), "games".to_string()]);
    store.add_category("Web");
    assert_eq!(store.get_categories().len(), 3);
}

#[test]
fn init_on_an_empty_store_sets_the_counter_to_zero() {
    let mut store = MyApp::new();
    assert_eq!(store.init(), Ok(()));
    assert_eq!(store.next_id(), 0);
    assert_eq!(store.add_project(&project("A")), Ok(0));
}

#[test]
fn init_sets_the_counter_past_the_largest_id_despite_gaps() {
    let mut store = MyApp::new();
    let loaded = vec![project_with_id(3, "A"), project_with_id(10, "B"), project_with_id(4, "C")];
    store.load_projects(loaded, vec!["web".to_string()]);
    assert_eq!(store.next_id(), 0);
    assert_eq!(store.init(), Ok(()));
    assert_eq!(store.next_id(), 11);
    assert_eq!(store.add_project(&project("D")), Ok(11));
    assert_eq!(ids(&store), vec![3, 10, 4, 11]);
}

#[test]
fn init_fails_where_the_largest_id_cannot_be_followed() {
    let mut store = MyApp::new();
    store.load_projects(vec![project_with_id(2, "A"), project_with_id(usize::MAX, "B")], vec![]);
    assert_eq!(store.init(), Err(StoreError::IdSpaceExhausted));
    assert_eq!(store.next_id(), 0);
    assert_eq!(ids(&store), vec![2, usize::MAX]);
}

#[test]
fn add_project_fails_once_the_counter_is_at_its_end() {
    let mut store = MyApp::new();
    store.load_projects(vec![project_with_id(usize::MAX - 1, "A")], vec![]);
    assert_eq!(store.init(), Ok(()));
    assert_eq!(store.next_id(), usize::MAX);
    assert_eq!(store.add_project(&project("B")), Err(StoreError::IdSpaceExhausted));
    assert_eq!(store.update_project(5, &project("B")), Err(StoreError::IdSpaceExhausted));
    assert_eq!(store.get_database_as_ref().len(), 1);
    assert_eq!(store.next_id(), usize::MAX);
}

#[test]
fn load_projects_keeps_a_repeated_category_once() {
    let mut store = MyApp::new();
    store.add_category("old");
    store.load_projects(
        vec![],
        vec!["web".to_string(), "games".to_string(), "web".to_string()],
    );
    assert_eq!(store.get_categories(), &vec!["web".to_string(), "games".to_string()]);
}

#[test]
fn a_reloaded_snapshot_holds_the_same_projects_and_categories() {
    let mut store = MyApp::new();
    let mut linked = project("A");
    linked.files_link = Some("https://example.org/a".to_string());
    store.add_project(&linked).unwrap();
    store.add_project(&project("B")).unwrap();
    store.attatch_file(1, "./database/files/1/b.zip");
    store.add_category("web");
    store.add_category("games");

    let mut restarted = MyApp::new();
    restarted.load_projects(store.get_database_as_ref().clone(), store.get_categories().clone());
    assert_eq!(restarted.init(), Ok(()));

    let before = store.get_database_as_ref();
    let after = restarted.get_database_as_ref();
    assert_eq!(before.len(), after.len());
    for i in 0..before.len() {
        assert!(same_project(&before[i], &after[i]));
    }
    assert_eq!(store.get_categories(), restarted.get_categories());
    assert_eq!(restarted.next_id(), 2);
}

#[test]
fn restart_after_a_removal_keeps_the_record_and_goes_on_counting() {
    let mut store = MyApp::new();
    assert_eq!(store.add_project(&project("A")), Ok(0));
    assert_eq!(store.add_project(&project("B")), Ok(1));
    store.remove_by_id(0);

    let mut restarted = MyApp::new();
    restarted.load_projects(store.get_database_as_ref().clone(), store.get_categories().clone());
    assert_eq!(restarted.init(), Ok(()));
    assert_eq!(ids(&restarted), vec![1]);
    assert_eq!(restarted.get_project_by_id(1).unwrap().title, "B");
    assert_eq!(restarted.add_project(&project("C")), Ok(2));
}

#[test]
fn reinitialize_ids_numbers_the_projects_by_place() {
    let mut store = MyApp::new();
    store.load_projects(
        vec![project_with_id(8, "A"), project_with_id(3, "B"), project_with_id(8, "C")],
        vec![],
    );
    store.init().unwrap();
    store.reinitialize_ids();
    assert_eq!(ids(&store), vec![0, 1, 2]);
    assert_eq!(titles(&store), vec!["A".to_string(), "B".to_string(), "C".to_string()]);
    assert_eq!(store.next_id(), 9);
}

#[test]
fn lookups_take_the_first_of_two_records_with_one_id() {
    let mut store = MyApp::new();
    store.load_projects(vec![project_with_id(5, "first"), project_with_id(5, "second")], vec![]);
    assert_eq!(store.get_project_by_id(5).unwrap().title, "first");
    store.remove_by_id(5);
    assert_eq!(titles(&store), vec!["second".to_string()]);
}

#[test]
fn prepare_database_decides_by_what_was_found() {
    let store = MyApp::new();
    assert_eq!(store.prepare_database(DirectoryProbe::Found), Startup::Load);
    assert_eq!(store.prepare_database(DirectoryProbe::Missing), Startup::Create);
    assert_eq!(store.prepare_database(DirectoryProbe::Unreadable), Startup::Abort);
}

#[test]
fn create_file_entry_does_nothing() {
    ProjectInfo::create_file_entry();
}
