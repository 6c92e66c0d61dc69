//! The remote client's logic: endpoint URLs, the layout of an upload form,
//! and the refresh-on-expiry policy for authenticated calls.

use vstd::prelude::*;
use crate::models::{FileRow, RecordView};
use crate::paths::{extract_filename_filepath, file_name_of, dir_of};
use crate::text::concat;
use crate::time::{Timestamp, millis_of, rfc3339_of, rfc3339_text, rfc3339_writable, is_expired_at};

verus! {

/// `POST <base>/auth/login`.
pub fn login_url(base: &str) -> (r: String)
    ensures
        r@ == base@ + "/auth/login"@,
{
    concat(base, "/auth/login")
}

/// `POST <base>/auth/register`.
pub fn register_url(base: &str) -> (r: String)
    ensures
        r@ == base@ + "/auth/register"@,
{
    concat(base, "/auth/register")
}

/// `POST <base>/auth/refresh`.
pub fn refresh_url(base: &str) -> (r: String)
    ensures
        r@ == base@ + "/auth/refresh"@,
{
    concat(base, "/auth/refresh")
}

/// `POST <base>/file/upload`.
pub fn upload_url(base: &str) -> (r: String)
    ensures
        r@ == base@ + "/file/upload"@,
{
    concat(base, "/file/upload")
}

/// `DELETE <base>/file/delete?path=<path>`.
pub fn delete_url(base: &str, path: &str) -> (r: String)
    ensures
        r@ == base@ + "/file/delete?path="@ + path@,
{
    crate::text::concat3(base, "/file/delete?path=", path)
}

/// The content of a form part: text, or the file at a path.
pub enum PartBody {
    Text(String),
    File(String),
}

/// One named part of a multipart form.
pub struct FormPart {
    pub name: String,
    pub body: PartBody,
}

/// What a form part says: its name, whether it carries a file, and the
/// text or the file's path.
pub open spec fn part_view(p: FormPart) -> (Seq<char>, bool, Seq<char>) {
    match p.body {
        PartBody::Text(t) => (p.name@, false, t@),
        PartBody::File(f) => (p.name@, true, f@),
    }
}

/// The three parts that carry one record: its time, its directory and its
/// bytes, each named after the record's file name.
pub open spec fn parts_of(r: RecordView) -> Seq<(Seq<char>, bool, Seq<char>)> {
    let f = file_name_of(r.path);
    seq![
        ("last_modified_"@ + f, false, rfc3339_of(r.last_modified.secs, r.last_modified.nanos).unwrap()),
        ("path_"@ + f, false, dir_of(r.path)),
        ("file_"@ + f, true, r.path),
    ]
}

/// Every record's time can be written as RFC 3339 text.
pub open spec fn all_times_written(files: Seq<FileRow>) -> bool {
    forall|i: int|
        0 <= i < files.len() ==> (#[trigger] rfc3339_of(
            files[i]@.last_modified.secs,
            files[i]@.last_modified.nanos,
        )) is Some
}

/// The layout of an upload request carrying `files`: for each record, in
/// order, the parts `last_modified_<F>`, `path_<F>` and `file_<F>`, where
/// `<F>` is its file name. Fails exactly where some record's time cannot be
/// written, which no time within chrono's range causes.
pub fn build_file_form(files: &Vec<FileRow>) -> (r: Result<Vec<FormPart>, String>)
    ensures
        r is Ok <==> all_times_written(files@),
        (forall|i: int| 0 <= i < files@.len() ==> rfc3339_writable(#[trigger] files@[i]@.last_modified))
            ==> r is Ok,
        r matches Ok(parts) ==> parts@.len() == 3 * files@.len() && forall|i: int, k: int|
            0 <= i < files@.len() && 0 <= k < 3 ==> part_view(#[trigger] parts@[3 * i + k]) == parts_of(
                files@[i]@,
            )[k],
{
    let mut parts: Vec<FormPart> = Vec::new();
    let mut i: usize = 0;
    while i < files.len()
        invariant
            i <= files@.len(),
            parts@.len() == 3 * i,
            forall|j: int|
                0 <= j < i ==> (#[trigger] rfc3339_of(
                    files@[j]@.last_modified.secs,
                    files@[j]@.last_modified.nanos,
                )) is Some,
            forall|j: int, k: int|
                0 <= j < i && 0 <= k < 3 ==> part_view(#[trigger] parts@[3 * j + k]) == parts_of(files@[j]@)[k],
        decreases files@.len() - i,
    {
        let file = &files[i];
        let full = crate::text::owned(file.path());
        let (filename, path) = extract_filename_filepath(&full);
        let stamp = match rfc3339_text(file.last_modified()) {
            Some(s) => s,
            None => {
                assert(!all_times_written(files@)) by {
                    assert(rfc3339_of(files@[i as int]@.last_modified.secs, files@[i as int]@.last_modified.nanos) is None);
                }
                return Err(String::from_str("modification time cannot be written"));
            },
        };
        let ghost before = parts@;
        parts.push(FormPart { name: concat("last_modified_", filename.as_str()), body: PartBody::Text(stamp) });
        parts.push(FormPart { name: concat("path_", filename.as_str()), body: PartBody::Text(path) });
        parts.push(FormPart { name: concat("file_", filename.as_str()), body: PartBody::File(full) });
        proof {
            assert forall|j: int, k: int| 0 <= j < i + 1 && 0 <= k < 3 implies part_view(
                #[trigger] parts@[3 * j + k],
            ) == parts_of(files@[j]@)[k] by {
                if j < i {
                    assert(parts@[3 * j + k] == before[3 * j + k]);
                } else {
                    assert(3 * j + k == 3 * i + k);
                }
            }
        }
        i = i + 1;
    }
    Ok(parts)
}

/// Where an authenticated call stands.
#[derive(Clone, Copy, Debug, PartialEq, Eq, Structural)]
pub enum AuthPhase {
    /// The stored tokens are about to be read.
    Initial,
    /// The access token had expired; a refresh is under way.
    Refreshing,
    /// The refresh succeeded; the stored tokens are read again.
    Reloading,
    /// The call was sent or abandoned.
    Finished,
}

/// What happened since the last step.
pub enum AuthEvent {
    /// The stored tokens were read: the access token and its expiry in
    /// milliseconds.
    Tokens { access_token: String, expires_at_millis: usize },
    /// The refresh call succeeded and its tokens were stored.
    Refreshed,
    /// Reading the tokens or refreshing them failed.
    Failed(String),
}

/// What to do next.
pub enum AuthAction {
    /// Call the refresh endpoint with the stored refresh token.
    Refresh,
    /// Read the stored tokens.
    LoadTokens,
    /// Send the call, bearing this access token.
    Send(String),
    /// Give up on the call, for this reason.
    Abort(String),
}

/// What an event says.
pub enum AuthEventView {
    Tokens(Seq<char>, usize),
    Refreshed,
    Failed(Seq<char>),
}

/// What an action says.
pub enum AuthActionView {
    Refresh,
    LoadTokens,
    Send(Seq<char>),
    Abort(Seq<char>),
}

impl View for AuthEvent {
    type V = AuthEventView;

    open spec fn view(&self) -> AuthEventView {
        match self {
            AuthEvent::Tokens { access_token, expires_at_millis } => AuthEventView::Tokens(access_token@, *expires_at_millis),
            AuthEvent::Refreshed => AuthEventView::Refreshed,
            AuthEvent::Failed(m) => AuthEventView::Failed(m@),
        }
    }
}

impl View for AuthAction {
    type V = AuthActionView;

    open spec fn view(&self) -> AuthActionView {
        match self {
            AuthAction::Refresh => AuthActionView::Refresh,
            AuthAction::LoadTokens => AuthActionView::LoadTokens,
            AuthAction::Send(t) => AuthActionView::Send(t@),
            AuthAction::Abort(m) => AuthActionView::Abort(m@),
        }
    }
}

/// The refresh-on-expiry policy. Expiry is the only trigger: the tokens
/// are read; if the access token has expired at `now`, it is refreshed and
/// the tokens read again; the call then goes out bearing the access token
/// last read. Any failure abandons the call.
pub open spec fn auth_next(phase: AuthPhase, event: AuthEventView, now: Timestamp) -> (AuthPhase, AuthActionView) {
    match (phase, event) {
        (_, AuthEventView::Failed(m)) => (AuthPhase::Finished, AuthActionView::Abort(m)),
        (AuthPhase::Initial, AuthEventView::Tokens(t, e)) => if millis_of(now) >= e {
            (AuthPhase::Refreshing, AuthActionView::Refresh)
        } else {
            (AuthPhase::Finished, AuthActionView::Send(t))
        },
        (AuthPhase::Refreshing, AuthEventView::Refreshed) => (AuthPhase::Reloading, AuthActionView::LoadTokens),
        (AuthPhase::Reloading, AuthEventView::Tokens(t, _)) => (AuthPhase::Finished, AuthActionView::Send(t)),
        _ => (AuthPhase::Finished, AuthActionView::Abort("unexpected step in authentication"@)),
    }
}

/// One step of the refresh-on-expiry policy, as `auth_next` says.
pub fn auth_step(phase: AuthPhase, event: AuthEvent, now: Timestamp) -> (r: (AuthPhase, AuthAction))
    ensures
        (r.0, r.1@) == auth_next(phase, event@, now),
{
    match event {
        AuthEvent::Failed(m) => (AuthPhase::Finished, AuthAction::Abort(m)),
        AuthEvent::Tokens { access_token, expires_at_millis } => match phase {
            AuthPhase::Initial => if is_expired_at(now, expires_at_millis) {
                (AuthPhase::Refreshing, AuthAction::Refresh)
            } else {
                (AuthPhase::Finished, AuthAction::Send(access_token))
            },
            AuthPhase::Reloading => (AuthPhase::Finished, AuthAction::Send(access_token)),
            _ => (AuthPhase::Finished, AuthAction::Abort(String::from_str("unexpected step in authentication"))),
        },
        AuthEvent::Refreshed => match phase {
            AuthPhase::Refreshing => (AuthPhase::Reloading, AuthAction::LoadTokens),
            _ => (AuthPhase::Finished, AuthAction::Abort(String::from_str("unexpected step in authentication"))),
        },
    }
}

} // verus!
