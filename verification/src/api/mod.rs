//! What each request decides: who may do what, which record and which
//! paths a request speaks of, and what becomes of the store. Reading and
//! writing files is left to the caller, who is told what to read or write.

pub mod auth;
pub mod error;
pub mod files;
pub mod multipart;

use vstd::prelude::*;
use vstd::string::*;
use crate::api::error::ApiError;
use crate::api::files::{attachment_path, attachment_path_of, project_dir, project_dir_of};
use crate::db::model::ProjectRecord;
use crate::db::{MyApp, ProjectInfo, StoreError};
use crate::text::{
    chars_of, decimal_digits, find, first_index_of, lemma_decimal_digits_value,
    lemma_first_occurrence_is_index, occurs_at, parse_id, parsed_id, text_of,
};

pub use crate::api::auth::{
    authenticate, authorize, change_creds, credentials_match, extract, validate_creds, AuthData,
    AuthError, Capability, Operation,
};
pub use crate::api::files::{file_headers, file_headers_with, FileHeaders};
pub use crate::api::multipart::{PartKind, Parts};

verus! {

/// A file to store for a project: the directory to make sure of, and the
/// path to write the bytes to.
#[derive(Debug)]
pub struct Upload {
    pub id: usize,
    pub dir: String,
    pub path: String,
}

impl Upload {
    /// Whether this is the upload of the file `name` for project `id`, in
    /// a store kept in `root`.
    pub open spec fn is_for(self, root: Seq<char>, id: nat, name: Seq<char>) -> bool {
        &&& self.id == id
        &&& self.dir@ == project_dir_of(root, id)
        &&& self.path@ == attachment_path_of(root, id, name)
    }
}

/// A project that was added, with the file to store for it, if any.
#[derive(Debug)]
pub struct Stored {
    pub id: usize,
    pub upload: Option<Upload>,
}

/// How the attempt to create a project's directory ended.
#[derive(Debug, Clone, Copy, PartialEq, Eq, Structural)]
pub enum DirectoryOutcome {
    Created,
    AlreadyExists,
    Failed,
}

/// What separates the identifier from the file name in an upload target.
pub open spec fn separator() -> Seq<char> {
    "%2F"@
}

/// The identifier and the file name that an upload target names: what
/// stands before the first separator, read as an identifier, and all that
/// follows it.
pub open spec fn upload_target(target: Seq<char>) -> Option<(usize, Seq<char>)> {
    match first_index_of(target, separator()) {
        Some(i) => match parsed_id(target.subrange(0, i)) {
            Some(id) => Some((id, target.subrange(i + separator().len(), target.len() as int))),
            None => None,
        },
        None => None,
    }
}

/// The record that a request with a file adds: with the file's path where
/// a file came and the record has no link, and with no file otherwise.
pub open spec fn record_with_upload(
    root: Seq<char>,
    id: nat,
    record: ProjectRecord,
    upload_name: Option<Seq<char>>,
) -> ProjectRecord {
    match upload_name {
        Some(name) if record.files_link is None => record.with_file(
            attachment_path_of(root, id, name),
        ),
        _ => record.without_file(),
    }
}

/// An upload target written as the identifier in decimal, the separator
/// and the file's name is read back as that identifier and that name,
/// whatever the name holds.
pub proof fn lemma_upload_target_round_trip(id: usize, name: Seq<char>)
    ensures
        upload_target(decimal_digits(id as nat) + separator() + name) == Some((id, name)),
{
    reveal_strlit("%2F");
    let digits = decimal_digits(id as nat);
    let target = digits + separator() + name;
    let at = digits.len() as int;
    lemma_decimal_digits_value(id as nat);
    assert(target.subrange(at, at + separator().len()) =~= separator());
    assert forall|j: int| 0 <= j < at implies !occurs_at(target, separator(), j) by {
        if occurs_at(target, separator(), j) {
            assert(target.subrange(j, j + separator().len())[0] == separator()[0]);
        }
    }
    lemma_first_occurrence_is_index(target, separator(), at);
    assert(target.subrange(0, at) =~= digits);
}

/// Decides on the deletion of the project that `id_text` names. The
/// project is removed from the store; the answer is the directory of its
/// file, to be removed by the caller, or `None` where it has no file.
pub fn delete_entry(store: &mut MyApp, id_text: &str) -> (r: Result<Option<String>, ApiError>)
    ensures
        match r {
            Ok(dir) => {
                &&& parsed_id(id_text@) matches Some(id)
                &&& old(store)@.get(id as nat) matches Some(project)
                &&& text_of(dir) == if project.internal_filename is Some {
                    Some(project_dir_of(old(store)@.db_path, id as nat))
                } else {
                    None
                }
                &&& final(store)@ == old(store)@.remove_by_id(id as nat)
            },
            Err(e) => {
                &&& final(store)@ == old(store)@
                &&& e == match parsed_id(id_text@) {
                    None => ApiError::BadRequest,
                    Some(_) => ApiError::NotFound,
                }
                &&& parsed_id(id_text@) matches Some(id) ==> old(store)@.get(id as nat) is None
            },
        },
{
    let id = match parse_id(id_text) {
        Some(id) => id,
        None => {
            return Err(ApiError::BadRequest);
        },
    };
    let dir = match store.get_project_by_id(id) {
        Some(project) => match &project.internal_filename {
            Some(_) => Some(project_dir(store.db_path(), id)),
            None => None,
        },
        None => {
            return Err(ApiError::NotFound);
        },
    };
    store.remove_by_id(id);
    Ok(dir)
}

/// Reads an upload target: an identifier, the separator `%2F`, and the
/// name of the file.
pub fn parse_upload_target(target: &str) -> (r: Option<(usize, &str)>)
    ensures
        match r {
            Some((id, name)) => upload_target(target@) == Some((id, name@)),
            None => upload_target(target@) is None,
        },
{
    proof {
        reveal_strlit("%2F");
    }
    let len = target.unicode_len();
    match find(target, "%2F") {
        Some(i) => match parse_id(target.substring_char(0, i)) {
            Some(id) => Some((id, target.substring_char(i + 3, len))),
            None => None,
        },
        None => None,
    }
}

/// Decides on the upload that `target` names, for a store kept where
/// `store` is: which project the file is for, and where it goes.
pub fn save_file(store: &MyApp, target: &str) -> (r: Result<Upload, ApiError>)
    ensures
        match r {
            Ok(upload) => upload_target(target@) matches Some((id, name)) && upload.is_for(
                store@.db_path,
                id as nat,
                name,
            ),
            Err(e) => e == ApiError::BadRequest && upload_target(target@) is None,
        },
{
    match parse_upload_target(target) {
        Some((id, name)) => Ok(
            Upload {
                id,
                dir: project_dir(store.db_path(), id),
                path: attachment_path(store.db_path(), id, name),
            },
        ),
        None => Err(ApiError::BadRequest),
    }
}

/// Whether the project's directory is there to be written to: creating
/// it, or finding it there already, will do; any other outcome will not.
pub fn directory_ready(outcome: DirectoryOutcome) -> (r: Result<(), ApiError>)
    ensures
        match r {
            Ok(_) => outcome != DirectoryOutcome::Failed,
            Err(e) => outcome == DirectoryOutcome::Failed && e == ApiError::Storage,
        },
{
    match outcome {
        DirectoryOutcome::Created => Ok(()),
        DirectoryOutcome::AlreadyExists => Ok(()),
        DirectoryOutcome::Failed => Err(ApiError::Storage),
    }
}

/// Ends an upload for a project that the store holds already. A file
/// that was written is recorded as the project's file; where the writing
/// failed the store stays as it is.
pub fn finish_upload(store: &mut MyApp, upload: &Upload, written: bool) -> (r: Result<
    (),
    ApiError,
>)
    ensures
        match r {
            Ok(_) => written && final(store)@ == old(store)@.attach_file(
                upload.id as nat,
                upload.path@,
            ),
            Err(e) => !written && e == ApiError::Storage && final(store)@ == old(store)@,
        },
        old(store)@.ids_fresh() ==> final(store)@.ids_fresh(),
{
    if written {
        store.attatch_file(upload.id, upload.path.as_str());
        Ok(())
    } else {
        Err(ApiError::Storage)
    }
}

/// Ends the adding of a project with a file. Where the file was written
/// the store stays as it is, with the project in it; where the writing
/// failed the project is taken out again.
pub fn finish_multipart(store: &mut MyApp, stored: &Stored, written: bool) -> (r: Result<
    (),
    ApiError,
>)
    ensures
        match r {
            Ok(_) => written && final(store)@ == old(store)@,
            Err(e) => !written && e == ApiError::Storage && final(store)@ == old(
                store,
            )@.remove_by_id(stored.id as nat),
        },
        old(store)@.ids_fresh() ==> final(store)@.ids_fresh(),
{
    if written {
        Ok(())
    } else {
        store.remove_by_id(stored.id);
        Err(ApiError::Storage)
    }
}

/// Finds the path of the file of the project that `id_text` names.
pub fn get_file_for_project(store: &MyApp, id_text: &str) -> (r: Result<String, ApiError>)
    ensures
        match r {
            Ok(path) => parsed_id(id_text@) matches Some(id) && store@.file_path(id as nat) == Some(
                path@,
            ),
            Err(e) => match parsed_id(id_text@) {
                None => e == ApiError::BadRequest,
                Some(id) => match store@.get(id as nat) {
                    None => e == ApiError::NotFound,
                    Some(project) => e == ApiError::NoAttachment && project.internal_filename
                        is None,
                },
            },
        },
{
    let id = match parse_id(id_text) {
        Some(id) => id,
        None => {
            return Err(ApiError::BadRequest);
        },
    };
    match store.get_project_by_id(id) {
        Some(project) => match &project.internal_filename {
            Some(path) => Ok(path.clone()),
            None => Err(ApiError::NoAttachment),
        },
        None => Err(ApiError::NotFound),
    }
}

/// An error of the store as an error of a request.
fn store_error(e: StoreError) -> (r: ApiError)
    ensures
        r == ApiError::IdSpaceExhausted,
{
    match e {
        StoreError::IdSpaceExhausted => ApiError::IdSpaceExhausted,
    }
}

/// Adds the project that a request describes and returns its identifier.
/// The identifier and the attached file that the request names are
/// not taken over: the store gives the one, and no file has come.
pub fn add_single_entry(store: &mut MyApp, item: &ProjectInfo) -> (r: Result<usize, ApiError>)
    ensures
        match r {
            Ok(id) => {
                &&& old(store)@.next_id < usize::MAX
                &&& id == old(store)@.next_id
                &&& final(store)@ == old(store)@.add_project(item@.without_file())
            },
            Err(e) => {
                &&& old(store)@.next_id == usize::MAX
                &&& e == ApiError::IdSpaceExhausted
                &&& final(store)@ == old(store)@
            },
        },
        r is Ok ==> final(store)@.projects.last().link_or_file(),
        old(store)@.ids_fresh() ==> final(store)@.ids_fresh(),
{
    let record = ProjectInfo {
        id: 0,
        title: item.title.clone(),
        author: item.author.clone(),
        academic_year: item.academic_year,
        is_diploma: item.is_diploma,
        category: item.category.clone(),
        files_link: match &item.files_link {
            Some(link) => Some(link.clone()),
            None => None,
        },
        internal_filename: None,
    };
    assert(record@.with_id(old(store)@.next_id) == item@.without_file().with_id(
        old(store)@.next_id,
    ));
    match store.add_project(&record) {
        Ok(id) => Ok(id),
        Err(e) => Err(store_error(e)),
    }
}

/// Adds the category that a request names, and the category `default`
/// where the name could not be read.
pub fn add_single_category(store: &mut MyApp, category: Option<&str>)
    ensures
        final(store)@ == old(store)@.add_category(
            match category {
                Some(name) => name@,
                None => "default"@,
            },
        ),
{
    match category {
        Some(name) => store.add_category(name),
        None => store.add_category("default"),
    }
}

/// Adds the project that a request with a file describes. Where a file
/// came, under the name `upload_name`, and the project has no link, the
/// project is added with the path that the file is to be written to, and
/// the answer holds that upload. A project with a link is added without a
/// file, and so is one for which no file came.
pub fn add_entry_multipart(
    store: &mut MyApp,
    record: &ProjectInfo,
    upload_name: Option<&str>,
) -> (r: Result<Stored, ApiError>)
    ensures
        match r {
            Ok(stored) => {
                &&& old(store)@.next_id < usize::MAX
                &&& stored.id == old(store)@.next_id
                &&& final(store)@ == old(store)@.add_project(
                    record_with_upload(
                        old(store)@.db_path,
                        stored.id as nat,
                        record@,
                        chars_of(upload_name),
                    ),
                )
                &&& match stored.upload {
                    Some(upload) => {
                        &&& record@.files_link is None
                        &&& upload_name matches Some(name)
                        &&& upload.is_for(old(store)@.db_path, stored.id as nat, name@)
                    },
                    None => record@.files_link is Some || upload_name is None,
                }
            },
            Err(e) => {
                &&& old(store)@.next_id == usize::MAX
                &&& e == ApiError::IdSpaceExhausted
                &&& final(store)@ == old(store)@
            },
        },
        r is Ok ==> final(store)@.projects.last().link_or_file(),
        old(store)@.ids_fresh() ==> final(store)@.ids_fresh(),
{
    let id = store.next_id();
    if id == usize::MAX {
        return Err(ApiError::IdSpaceExhausted);
    }
    let mut item = record.clone();
    item.internal_filename = None;
    let upload = match upload_name {
        Some(name) => {
            if item.files_link.is_none() {
                let upload = Upload {
                    id,
                    dir: project_dir(store.db_path(), id),
                    path: attachment_path(store.db_path(), id, name),
                };
                item.internal_filename = Some(upload.path.clone());
                Some(upload)
            } else {
                None
            }
        },
        None => None,
    };
    assert(item@ == record_with_upload(
        old(store)@.db_path,
        id as nat,
        record@,
        chars_of(upload_name),
    ));
    match store.add_project(&item) {
        Ok(_) => {},
        Err(e) => {
            return Err(store_error(e));
        },
    }
    Ok(Stored { id, upload })
}

} // verus!
