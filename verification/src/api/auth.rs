//! Who is asking: the one pair of administrator credentials, and the
//! capability that a request gets by showing them.

use vstd::prelude::*;
use vstd::string::*;
use crate::api::error::ApiError;
use crate::db::names_of;
use crate::text::{chars, chars_of};

verus! {

/// The administrator's login and password, as kept on disk.
#[derive(Debug)]
pub struct AuthData {
    pub login: String,
    pub password: String,
}

/// A login and a password as plain values.
pub struct Credentials {
    pub login: Seq<char>,
    pub password: Seq<char>,
}

impl View for AuthData {
    type V = Credentials;

    open spec fn view(&self) -> Credentials {
        Credentials { login: self.login@, password: self.password@ }
    }
}

/// The credentials of an optional record.
pub open spec fn credentials_of(stored: Option<&AuthData>) -> Option<Credentials> {
    match stored {
        Some(a) => Some(a@),
        None => None,
    }
}

/// What a request is allowed.
#[derive(Debug, Clone, Copy, PartialEq, Eq, Structural)]
pub enum Capability {
    /// Reading only: what everybody may do.
    User,
    /// Reading and changing the catalog.
    Admin,
}

/// What a request asks for.
#[derive(Debug, Clone, Copy, PartialEq, Eq, Structural)]
pub enum Operation {
    ListProjects,
    ListCategories,
    GetFile,
    AddProject,
    AddProjectWithFile,
    UploadFile,
    AddCategory,
    DeleteProject,
    ChangeCredentials,
    CheckCredentials,
}

/// Why credentials were not accepted.
#[derive(Debug, Clone, Copy, PartialEq, Eq, Structural)]
pub enum AuthError {
    /// The stored credentials could not be read.
    Unavailable,
    /// The login or the password is not the stored one.
    Invalid,
}

/// A name for what `char::is_whitespace` says of a character: whether it
/// has the Unicode property White_Space.
pub uninterp spec fn is_whitespace(c: char) -> bool;

/// `s` without the white space it starts with.
pub open spec fn trimmed_start(s: Seq<char>) -> Seq<char>
    decreases s.len(),
{
    if s.len() > 0 && is_whitespace(s[0]) {
        trimmed_start(s.drop_first())
    } else {
        s
    }
}

/// `s` without the white space it ends with.
pub open spec fn trimmed_end(s: Seq<char>) -> Seq<char>
    decreases s.len(),
{
    if s.len() > 0 && is_whitespace(s.last()) {
        trimmed_end(s.drop_last())
    } else {
        s
    }
}

/// `s` without the white space around it.
pub open spec fn trimmed(s: Seq<char>) -> Seq<char> {
    trimmed_end(trimmed_start(s))
}

/// Whether `user` and `password` are the stored login and password,
/// character for character.
pub open spec fn matches_stored(stored: Credentials, user: Seq<char>, password: Seq<char>) -> bool {
    user == stored.login && password == stored.password
}

/// The outcome of checking a login and an optional password against the
/// stored credentials. The password is compared without the white space
/// around it; the login as it is.
pub open spec fn validated(
    stored: Option<Credentials>,
    user: Seq<char>,
    pass: Option<Seq<char>>,
) -> Result<bool, AuthError> {
    match stored {
        None => Err(AuthError::Unavailable),
        Some(c) => match pass {
            None => Ok(false),
            Some(p) => if matches_stored(c, user, trimmed(p)) {
                Ok(true)
            } else {
                Err(AuthError::Invalid)
            },
        },
    }
}

/// The capability that a login and an optional password earn: `Admin`
/// where they are the stored ones, `User` in every other case, also where
/// the stored credentials could not be read.
pub open spec fn capability_of(
    stored: Option<Credentials>,
    user: Seq<char>,
    pass: Option<Seq<char>>,
) -> Capability {
    if validated(stored, user, pass) == Ok::<bool, AuthError>(true) {
        Capability::Admin
    } else {
        Capability::User
    }
}

/// Whether `operation` changes the catalog or the credentials, and so is
/// for administrators only.
pub open spec fn needs_admin(operation: Operation) -> bool {
    !(operation is ListProjects || operation is ListCategories || operation is GetFile)
}

/// The grants that stand for a capability: every request holds
/// `AUTH_USER`, an administrator's holds `AUTH_ADMIN` as well.
pub open spec fn grants_of(capability: Capability) -> Seq<Seq<char>> {
    match capability {
        Capability::User => seq!["AUTH_USER"@],
        Capability::Admin => seq!["AUTH_USER"@, "AUTH_ADMIN"@],
    }
}

/// Calls `char::is_whitespace` on `c`. Nothing is claimed of which
/// characters are white space, only that the answer depends on the
/// character alone: it is the one that `is_whitespace` names.
#[verifier::external_body]
fn char_is_whitespace(c: char) -> (b: bool)
    ensures
        b == is_whitespace(c),
{
    c.is_whitespace()
}

/// Trimming the start of a string that starts with `k` white space
/// characters and then, if it goes on, with another character, drops
/// exactly those `k`.
proof fn lemma_trimmed_start(s: Seq<char>, k: int)
    requires
        0 <= k <= s.len(),
        forall|i: int| 0 <= i < k ==> is_whitespace(s[i]),
        k < s.len() ==> !is_whitespace(s[k]),
    ensures
        trimmed_start(s) == s.subrange(k, s.len() as int),
    decreases k,
{
    if k > 0 {
        lemma_trimmed_start(s.drop_first(), k - 1);
    }
}

/// Trimming the end of a string whose last `s.len() - k` characters are
/// white space, and whose character before them, if there is one, is not,
/// keeps exactly the first `k`.
proof fn lemma_trimmed_end(s: Seq<char>, k: int)
    requires
        0 <= k <= s.len(),
        forall|i: int| k <= i < s.len() ==> is_whitespace(s[i]),
        k > 0 ==> !is_whitespace(s[k - 1]),
    ensures
        trimmed_end(s) == s.subrange(0, k),
    decreases s.len() - k,
{
    if k < s.len() {
        lemma_trimmed_end(s.drop_last(), k);
    }
}

/// `s` without the white space around it.
pub fn trim(s: &str) -> (r: &str)
    ensures
        r@ == trimmed(s@),
{
    let text = chars(s);
    let len = text.len();
    let mut start: usize = 0;
    while start < len && char_is_whitespace(text[start])
        invariant
            start <= len,
            len == s@.len(),
            text@ == s@,
            forall|i: int| 0 <= i < start ==> is_whitespace(s@[i]),
        decreases len - start,
    {
        start += 1;
    }
    let mut end: usize = len;
    while end > start && char_is_whitespace(text[end - 1])
        invariant
            start <= end <= len,
            len == s@.len(),
            text@ == s@,
            forall|i: int| end <= i < len ==> is_whitespace(s@[i]),
        decreases end,
    {
        end -= 1;
    }
    proof {
        lemma_trimmed_start(s@, start as int);
        lemma_trimmed_end(s@.subrange(start as int, len as int), end - start);
    }
    s.substring_char(start, end)
}

/// Whether two strings hold the same characters.
fn same_text(a: &str, b: &str) -> (r: bool)
    ensures
        r == (a@ == b@),
{
    let x = a.to_owned();
    let y = b.to_owned();
    x == y
}

/// Whether `user` and `password` are the stored login and password. The
/// comparison is exact: case counts, and so does white space.
pub fn credentials_match(stored: &AuthData, user: &str, password: &str) -> (r: bool)
    ensures
        r == matches_stored(stored@, user@, password@),
{
    same_text(user, stored.login.as_str()) && same_text(password, stored.password.as_str())
}

/// Checks a login and an optional password against the stored
/// credentials, where `stored` is `None` if they could not be read. With
/// no password the answer is `Ok(false)`; with the stored login and, white
/// space around it aside, the stored password it is `Ok(true)`; with any
/// other login or password it is `Err(AuthError::Invalid)`.
pub fn validate_creds(stored: Option<&AuthData>, user: &str, pass: Option<&str>) -> (r: Result<
    bool,
    AuthError,
>)
    ensures
        r == validated(credentials_of(stored), user@, chars_of(pass)),
{
    match stored {
        None => Err(AuthError::Unavailable),
        Some(auth) => match pass {
            None => Ok(false),
            Some(p) => {
                if credentials_match(auth, user, trim(p)) {
                    Ok(true)
                } else {
                    Err(AuthError::Invalid)
                }
            },
        },
    }
}

/// The capability of a request that shows `user` and `pass`. A failed
/// check is no error: the request is then an ordinary user's.
pub fn authenticate(stored: Option<&AuthData>, user: &str, pass: Option<&str>) -> (c: Capability)
    ensures
        c == capability_of(credentials_of(stored), user@, chars_of(pass)),
{
    match validate_creds(stored, user, pass) {
        Ok(true) => Capability::Admin,
        Ok(false) => Capability::User,
        Err(_) => Capability::User,
    }
}

impl Capability {
    /// The grants to attach to a request that holds this capability.
    pub fn grants(self) -> (g: Vec<String>)
        ensures
            names_of(g@) == grants_of(self),
    {
        let mut g: Vec<String> = Vec::new();
        g.push(String::from_str("AUTH_USER"));
        match self {
            Capability::Admin => {
                g.push(String::from_str("AUTH_ADMIN"));
            },
            Capability::User => {},
        }
        g
    }

    /// Whether a request that holds this capability may do `operation`.
    pub fn allows(self, operation: Operation) -> (r: bool)
        ensures
            r == (self is Admin || !needs_admin(operation)),
    {
        match self {
            Capability::Admin => true,
            Capability::User => match operation {
                Operation::ListProjects => true,
                Operation::ListCategories => true,
                Operation::GetFile => true,
                _ => false,
            },
        }
    }
}

/// The grants to attach to a request that shows `user` and `pass`.
pub fn extract(stored: Option<&AuthData>, user: &str, pass: Option<&str>) -> (g: Vec<String>)
    ensures
        names_of(g@) == grants_of(
            capability_of(credentials_of(stored), user@, chars_of(pass)),
        ),
{
    authenticate(stored, user, pass).grants()
}

/// Lets through what `capability` allows.
pub fn authorize(capability: Capability, operation: Operation) -> (r: Result<(), ApiError>)
    ensures
        match r {
            Ok(_) => capability is Admin || !needs_admin(operation),
            Err(e) => e == ApiError::Forbidden && capability is User && needs_admin(operation),
        },
{
    if capability.allows(operation) {
        Ok(())
    } else {
        Err(ApiError::Forbidden)
    }
}

/// The credentials to write in place of the stored ones: `item` as it is,
/// where the request holds the administrator's capability, and nothing
/// where it does not.
pub fn change_creds(capability: Capability, item: AuthData) -> (r: Result<AuthData, ApiError>)
    ensures
        match r {
            Ok(written) => capability is Admin && written == item,
            Err(e) => capability is User && e == ApiError::Forbidden,
        },
{
    match authorize(capability, Operation::ChangeCredentials) {
        Ok(_) => Ok(item),
        Err(e) => Err(e),
    }
}

} // verus!
