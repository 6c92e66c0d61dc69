//! The records exchanged between the components: file rows, users, token
//! claims and the bodies of requests and responses.

use vstd::prelude::*;
use crate::time::Timestamp;

verus! {

/// What a file row says: its path, content hash and modification time.
pub struct RecordView {
    pub path: Seq<char>,
    pub hash: Seq<char>,
    pub last_modified: Timestamp,
}

/// The canonical row of an index: a path, the hash of the content found
/// there, and when that content was last modified.
#[derive(Clone, Debug)]
pub struct FileRow {
    path: String,
    hash: String,
    last_modified: Timestamp,
}

impl View for FileRow {
    type V = RecordView;

    closed spec fn view(&self) -> RecordView {
        RecordView { path: self.path@, hash: self.hash@, last_modified: self.last_modified }
    }
}

impl FileRow {
    pub fn new(path: String, hash: String, last_modified: Timestamp) -> (r: FileRow)
        ensures
            r@ == (RecordView { path: path@, hash: hash@, last_modified }),
    {
        FileRow { path, hash, last_modified }
    }

    pub fn path(&self) -> (r: &str)
        ensures
            r@ == self@.path,
    {
        self.path.as_str()
    }

    pub fn hash(&self) -> (r: &str)
        ensures
            r@ == self@.hash,
    {
        self.hash.as_str()
    }

    pub fn last_modified(&self) -> (r: Timestamp)
        ensures
            r == self@.last_modified,
    {
        self.last_modified
    }

    pub fn set_hash(&mut self, hash: String)
        ensures
            final(self)@ == (RecordView { hash: hash@, ..old(self)@ }),
    {
        self.hash = hash;
    }

    pub fn set_last_modified(&mut self, last_modified: Timestamp)
        ensures
            final(self)@ == (RecordView { last_modified, ..old(self)@ }),
    {
        self.last_modified = last_modified;
    }

    pub fn set_path(&mut self, path: String)
        ensures
            final(self)@ == (RecordView { path: path@, ..old(self)@ }),
    {
        self.path = path;
    }

    /// A copy of the row, field for field.
    pub fn duplicate(&self) -> (r: FileRow)
        ensures
            r@ == self@,
    {
        FileRow { path: self.path.clone(), hash: self.hash.clone(), last_modified: self.last_modified }
    }
}

/// Builds a file row from its three fields.
pub fn convert_to_file_row(path: String, hash: String, last_modified: Timestamp) -> (r: FileRow)
    ensures
        r@ == (RecordView { path: path@, hash: hash@, last_modified }),
{
    FileRow::new(path, hash, last_modified)
}

/// The query of a request that names one stored file.
#[derive(Debug)]
pub struct FileRequest {
    path: Option<String>,
}

/// The requested path, as text.
pub open spec fn opt_view(o: Option<String>) -> Option<Seq<char>> {
    match o {
        Some(s) => Some(s@),
        None => None,
    }
}

impl View for FileRequest {
    type V = Option<Seq<char>>;

    closed spec fn view(&self) -> Option<Seq<char>> {
        opt_view(self.path)
    }
}

impl FileRequest {
    pub fn new(path: Option<String>) -> (r: FileRequest)
        ensures
            r@ == opt_view(path),
    {
        FileRequest { path }
    }

    pub fn path(&self) -> (r: &Option<String>)
        ensures
            opt_view(*r) == self@,
    {
        &self.path
    }
}

/// The claims of a signed token: its subject and expiry in seconds.
#[derive(Debug)]
pub struct Claims {
    pub sub: String,
    pub exp: usize,
}

/// A register or login request; either field may be absent.
#[derive(Debug)]
pub struct AuthRequest {
    pub username: Option<String>,
    pub password: Option<String>,
}

/// A request for a new access token.
#[derive(Debug)]
pub struct RefreshRequest {
    refresh_token: String,
}

impl View for RefreshRequest {
    type V = Seq<char>;

    closed spec fn view(&self) -> Seq<char> {
        self.refresh_token@
    }
}

impl RefreshRequest {
    pub fn new(refresh_token: String) -> (r: RefreshRequest)
        ensures
            r@ == refresh_token@,
    {
        RefreshRequest { refresh_token }
    }

    pub fn refresh_token(&self) -> (r: &str)
        ensures
            r@ == self@,
    {
        self.refresh_token.as_str()
    }
}

/// A registered user and the PHC string of their password hash.
#[derive(Clone, Debug)]
pub struct UserRow {
    username: String,
    password: String,
}

impl View for UserRow {
    type V = (Seq<char>, Seq<char>);

    /// The user name and the password hash.
    closed spec fn view(&self) -> (Seq<char>, Seq<char>) {
        (self.username@, self.password@)
    }
}

impl UserRow {
    pub fn new(username: String, password: String) -> (r: UserRow)
        ensures
            r@ == (username@, password@),
    {
        Self { username, password }
    }

    pub fn username(&self) -> (r: &str)
        ensures
            r@ == self@.0,
    {
        self.username.as_str()
    }

    pub fn password(&self) -> (r: &str)
        ensures
            r@ == self@.1,
    {
        self.password.as_str()
    }
}

/// The claims of an access token.
#[derive(Debug)]
pub struct UserAccessToken {
    pub sub: String,
    pub exp: usize,
}

impl UserAccessToken {
    pub fn new(sub: String, exp: usize) -> (r: UserAccessToken)
        ensures
            r.sub@ == sub@,
            r.exp == exp,
    {
        Self { sub, exp }
    }
}

/// The claims of a refresh token.
#[derive(Debug)]
pub struct UserRefreshToken {
    pub sub: String,
    pub exp: usize,
}

impl UserRefreshToken {
    pub fn new(sub: String, exp: usize) -> (r: UserRefreshToken)
        ensures
            r.sub@ == sub@,
            r.exp == exp,
    {
        Self { sub, exp }
    }
}

/// The body of a success envelope as the client reads it.
#[derive(Debug)]
pub struct SuccessResponse {
    pub message: String,
    pub status: String,
}

/// The body of an error envelope as the client reads it.
#[derive(Debug)]
pub struct ErrorResponse {
    pub error: String,
    pub status: String,
}

/// The persisted token state of the client.
#[derive(Debug)]
pub struct LoginTokenData {
    pub access_token: String,
    pub refresh_token: String,
    pub token_type: String,
    pub expires_at: usize,
}

impl LoginTokenData {
    pub fn set_access_token(&mut self, access_token: String)
        ensures
            final(self).access_token@ == access_token@,
            final(self).refresh_token@ == old(self).refresh_token@,
            final(self).token_type@ == old(self).token_type@,
            final(self).expires_at == old(self).expires_at,
    {
        self.access_token = access_token;
    }

    pub fn set_expires_at(&mut self, expires_at: usize)
        ensures
            final(self).expires_at == expires_at,
            final(self).access_token@ == old(self).access_token@,
            final(self).refresh_token@ == old(self).refresh_token@,
            final(self).token_type@ == old(self).token_type@,
    {
        self.expires_at = expires_at;
    }
}

/// The answer to a login.
#[derive(Debug)]
pub struct LoginResponse {
    pub data: LoginTokenData,
    pub message: String,
    pub status: String,
}

/// The answer to a refresh.
#[derive(Debug)]
pub struct RefreshResponse {
    pub data: RefreshData,
    pub message: String,
    pub status: String,
}

/// The new access token handed out by a refresh.
#[derive(Debug)]
pub struct RefreshData {
    pub username: String,
    pub access_token: String,
    pub token_type: String,
    pub expires_at: usize,
}

/// The client's configuration: the server's base URL.
#[derive(Debug)]
pub struct Config {
    pub url: String,
}

/// The user on whose behalf an authenticated request runs.
pub struct AuthUser(pub UserAccessToken);

} // verus!
