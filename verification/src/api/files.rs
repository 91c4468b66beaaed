//! Where the store keeps what on disk, and what is said of a file that is
//! sent back. The two documents of a snapshot lie in the store's
//! directory; attached files lie below its `files` directory, in one
//! directory for each project, named by the project's identifier.

use vstd::prelude::*;
use vstd::string::*;
use crate::text::{chars, decimal, decimal_digits, text_of};

verus! {

/// The file under `root` that holds the projects of a snapshot.
pub open spec fn projects_file_of(root: Seq<char>) -> Seq<char> {
    root + "/db.json"@
}

/// The file under `root` that holds the categories of a snapshot.
pub open spec fn categories_file_of(root: Seq<char>) -> Seq<char> {
    root + "/cat.json"@
}

/// The directory under `root` that holds the directories of all projects.
pub open spec fn files_root_of(root: Seq<char>) -> Seq<char> {
    root + "/files"@
}

/// The directory under `root` that holds the file of project `id`.
pub open spec fn project_dir_of(root: Seq<char>, id: nat) -> Seq<char> {
    files_root_of(root) + "/"@ + decimal_digits(id)
}

/// The path under `root` of the file `name` of project `id`.
pub open spec fn attachment_path_of(root: Seq<char>, id: nat, name: Seq<char>) -> Seq<char> {
    project_dir_of(root, id) + "/"@ + name
}

/// The index of the last slash of `path`, and -1 where it has none.
pub open spec fn last_slash(path: Seq<char>) -> int
    decreases path.len(),
{
    if path.len() == 0 {
        -1
    } else if path.last() == '/' {
        path.len() - 1
    } else {
        last_slash(path.drop_last())
    }
}

/// What follows the last slash of `path`: all of it where it has none.
pub open spec fn base_name(path: Seq<char>) -> Seq<char> {
    path.subrange(last_slash(path) + 1, path.len() as int)
}

/// The name of the file that `path` leads to. A path that ends in a slash,
/// in `.` or in `..` names no file.
pub open spec fn file_name_of(path: Seq<char>) -> Option<Seq<char>> {
    let name = base_name(path);
    if name.len() == 0 || name == "."@ || name == ".."@ {
        None
    } else {
        Some(name)
    }
}

/// The header value that suggests `name` as the name to save a file under.
pub open spec fn disposition_of(name: Seq<char>) -> Seq<char> {
    "filename=\""@ + name + "\""@
}

/// What is sent along with the bytes of a file.
#[derive(Debug)]
pub struct FileHeaders {
    /// The media type, where one could be guessed.
    pub content_type: Option<String>,
    /// The value of the `Content-Disposition` header.
    pub content_disposition: String,
}

/// The headers for the file at `path` whose guessed media type is
/// `media_type`; none where `path` names no file.
pub open spec fn headers_of(path: Seq<char>, media_type: Option<Seq<char>>) -> Option<
    (Option<Seq<char>>, Seq<char>),
> {
    match file_name_of(path) {
        Some(name) => Some((media_type, disposition_of(name))),
        None => None,
    }
}

/// The last slash is a slash, nothing after it is one, and it lies within
/// the path.
pub proof fn lemma_last_slash(path: Seq<char>)
    ensures
        -1 <= last_slash(path) < path.len(),
        last_slash(path) >= 0 ==> path[last_slash(path)] == '/',
        forall|i: int| last_slash(path) < i < path.len() ==> path[i] != '/',
    decreases path.len(),
{
    if path.len() > 0 && path.last() != '/' {
        lemma_last_slash(path.drop_last());
        assert forall|i: int| last_slash(path) < i < path.len() implies path[i] != '/' by {
            if i < path.len() - 1 {
                assert(path.drop_last()[i] != '/');
            }
        }
    }
}

/// A slash with none after it is the last slash.
pub proof fn lemma_last_slash_unique(path: Seq<char>, k: int)
    requires
        0 <= k < path.len(),
        path[k] == '/',
        forall|i: int| k < i < path.len() ==> path[i] != '/',
    ensures
        last_slash(path) == k,
{
    lemma_last_slash(path);
}

/// The file stored for a project is found again under the name it was
/// stored under: the path of an attachment names the file `name`, for every
/// `name` that holds no slash and is not empty, `.` or `..`.
pub proof fn lemma_attachment_keeps_name(root: Seq<char>, id: nat, name: Seq<char>)
    requires
        name.len() > 0,
        name != "."@,
        name != ".."@,
        forall|i: int| 0 <= i < name.len() ==> name[i] != '/',
    ensures
        file_name_of(attachment_path_of(root, id, name)) == Some(name),
{
    reveal_strlit("/");
    let dir = project_dir_of(root, id);
    let path = attachment_path_of(root, id, name);
    lemma_last_slash_unique(path, dir.len() as int);
    assert(base_name(path) =~= name);
}

/// The file that holds the projects of a snapshot.
pub fn projects_file(root: &str) -> (path: String)
    ensures
        path@ == projects_file_of(root@),
{
    let mut path = String::from_str(root);
    path.append("/db.json");
    path
}

/// The file that holds the categories of a snapshot.
pub fn categories_file(root: &str) -> (path: String)
    ensures
        path@ == categories_file_of(root@),
{
    let mut path = String::from_str(root);
    path.append("/cat.json");
    path
}

/// The file, in the directory that the server runs in, that holds the
/// administrator's credentials.
pub fn credentials_file() -> (path: &'static str)
    ensures
        path@ == "auth.json"@,
{
    "auth.json"
}

/// The directory that holds the directories of all projects.
pub fn files_root(root: &str) -> (dir: String)
    ensures
        dir@ == files_root_of(root@),
{
    let mut dir = String::from_str(root);
    dir.append("/files");
    dir
}

/// The directory that holds the file of project `id`.
pub fn project_dir(root: &str, id: usize) -> (dir: String)
    ensures
        dir@ == project_dir_of(root@, id as nat),
{
    let mut dir = files_root(root);
    dir.append("/");
    dir.append(decimal(id).as_str());
    dir
}

/// The path of the file `name` of project `id`.
pub fn attachment_path(root: &str, id: usize, name: &str) -> (path: String)
    ensures
        path@ == attachment_path_of(root@, id as nat, name@),
{
    let mut path = project_dir(root, id);
    path.append("/");
    path.append(name);
    path
}

/// The name of the file that `path` leads to.
pub fn file_name(path: &str) -> (r: Option<&str>)
    ensures
        match r {
            Some(name) => file_name_of(path@) == Some(name@),
            None => file_name_of(path@) is None,
        },
{
    let text = chars(path);
    let len = text.len();
    let mut start: usize = len;
    while start > 0 && text[start - 1] != '/'
        invariant
            start <= len,
            len == path@.len(),
            text@ == path@,
            forall|i: int| start <= i < len ==> path@[i] != '/',
        decreases start,
    {
        start -= 1;
    }
    proof {
        if start > 0 {
            lemma_last_slash_unique(path@, start - 1);
        } else {
            lemma_last_slash(path@);
        }
        reveal_strlit(".");
        reveal_strlit("..");
    }
    let name = path.substring_char(start, len);
    let n = len - start;
    if n == 0 {
        return None;
    }
    assert(name@[0] == text@[start as int]);
    if n == 1 && text[start] == '.' {
        assert(name@ =~= "."@);
        return None;
    }
    if n == 2 && text[start] == '.' && text[start + 1] == '.' {
        assert(name@ =~= ".."@);
        return None;
    }
    assert(n == 2 ==> name@[1] == text@[start + 1]);
    Some(name)
}

/// A name for what `mime_guess::from_path` and `MimeGuess::first` make
/// of a path: the first media type that the crate's table holds for the
/// path's extension, written out as text, and none where the path has no
/// extension or the table does not hold it. The guess looks at the path
/// alone, never at a file.
pub uninterp spec fn guessed_media_type(path: Seq<char>) -> Option<Seq<char>>;

/// Calls `mime_guess::from_path` on `path`, takes the first guess with
/// `MimeGuess::first`, and writes it out as text. Nothing is claimed of
/// which media type comes back, only that it depends on the path alone:
/// it is the one that `guessed_media_type` names.
#[verifier::external_body]
fn guess_media_type(path: &str) -> (r: Option<String>)
    ensures
        text_of(r) == guessed_media_type(path@),
{
    mime_guess::from_path(path).first().map(|m| m.as_ref().to_owned())
}

/// The headers for the file at `path`, given the media type that was
/// guessed for it; none where `path` names no file.
pub fn file_headers_with(path: &str, media_type: Option<String>) -> (r: Option<FileHeaders>)
    ensures
        match r {
            Some(h) => headers_of(path@, text_of(media_type)) == Some(
                (text_of(h.content_type), h.content_disposition@),
            ),
            None => headers_of(path@, text_of(media_type)) is None,
        },
{
    match file_name(path) {
        Some(name) => {
            let mut disposition = String::from_str("filename=\"");
            disposition.append(name);
            disposition.append("\"");
            Some(FileHeaders { content_type: media_type, content_disposition: disposition })
        },
        None => None,
    }
}

/// The headers for the file at `path`: the media type guessed from the
/// path's extension, and the file's name as the name to save it under.
pub fn file_headers(path: &str) -> (r: Option<FileHeaders>)
    ensures
        match r {
            Some(h) => headers_of(path@, guessed_media_type(path@)) == Some(
                (text_of(h.content_type), h.content_disposition@),
            ),
            None => headers_of(path@, guessed_media_type(path@)) is None,
        },
{
    let media_type = guess_media_type(path);
    file_headers_with(path, media_type)
}

} // verus!
