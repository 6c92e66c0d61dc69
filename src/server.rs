//! The server's file requests besides upload: listing, metadata and
//! deletion, on the rows of one user.

use vstd::prelude::*;
use crate::api::{ApiResponse, bad_request_error, not_found_error, is_error};
use crate::index::{LocalIndex, get_file, get_files};
use crate::models::{FileRequest, FileRow, RecordView};
use crate::paths::{
    escapes_base, format_file_path, forward_slashes, has_parent_component, is_absolute, join, join_path, normalized,
    relative_path, relative_to, slash_of, starts_with_dot_slash, strip_dot_slash,
};
use crate::text::{concat, starts_with};
use crate::upload::base_dir;

verus! {

/// The row path of a user's file named by a request path.
pub open spec fn user_path(user: Seq<char>, p: Seq<char>) -> Seq<char> {
    normalized(join_path(base_dir(user), p))
}

/// A request path is refused where it is absolute, holds a `..`
/// component, or would resolve to a row path holding one.
pub open spec fn refused_path(user: Seq<char>, p: Seq<char>) -> bool {
    is_absolute(p) || has_parent_component(p) || has_parent_component(user_path(user, p))
}

/// A relative request path resolves inside the uploads directory.
pub proof fn lemma_user_path_inside(user: Seq<char>, p: Seq<char>)
    requires
        !is_absolute(p),
    ensures
        starts_with(user_path(user, p), "uploads/"@),
        !is_absolute(user_path(user, p)),
{
    reveal_strlit("uploads/");
    let pre = "uploads/"@;
    assert(pre =~= seq!['u', 'p', 'l', 'o', 'a', 'd', 's', '/']);
    let b = base_dir(user);
    let j = join_path(b, p);
    assert(j.subrange(0, 8) =~= pre) by {
        if b.last() == '/' {
            assert(j =~= b + p);
        } else {
            assert(j =~= b + seq!['/'] + p);
        }
        assert forall|i: int| 0 <= i < 8 implies j[i] == pre[i] by {
            assert(j[i] == b[i]);
        }
    }
    let f = forward_slashes(j);
    assert(f.subrange(0, 8) =~= pre) by {
        assert forall|i: int| 0 <= i < 8 implies f[i] == pre[i] by {
            assert(f[i] == slash_of(j[i]));
            assert(j[i] == pre[i]);
        }
    }
    assert(!starts_with_dot_slash(f)) by {
        assert(f[0] == 'u');
    }
    assert(strip_dot_slash(f) == f);
}

/// How a stored row path is shown to its user: relative to the user's
/// directory (left as it is where it does not lie there).
pub open spec fn shown_path(user: Seq<char>, stored: Seq<char>) -> Seq<char> {
    match relative_to(base_dir(user), stored) {
        Some(rel) => rel,
        None => stored,
    }
}

/// A stored record as its user sees it.
pub open spec fn shown_record(user: Seq<char>, rec: RecordView) -> RecordView {
    RecordView { path: shown_path(user, rec.path), ..rec }
}

/// `rec` is how the user sees one of their rows in `m`.
pub open spec fn lists_row(m: Map<(Seq<char>, Seq<char>), RecordView>, user: Seq<char>, rec: RecordView) -> bool {
    exists|p: Seq<char>| #[trigger] m.contains_key((user, p)) && rec == shown_record(user, m[(user, p)])
}

/// The row path of the file a request names, for `username`.
pub fn request_target(username: &str, path: &str) -> (r: String)
    ensures
        r@ == user_path(username@, path@),
{
    let base = concat("uploads/", username);
    let joined = join(base.as_str(), path);
    format_file_path(&joined)
}

/// A stored row as its user sees it.
pub fn shown_row(username: &str, row: &FileRow) -> (r: FileRow)
    ensures
        r@ == (RecordView { path: shown_path(username@, row@.path), ..row@ }),
{
    let base = concat("uploads/", username);
    let mut out = row.duplicate();
    match relative_path(base.as_str(), row.path()) {
        Some(rel) => out.set_path(rel),
        None => {},
    }
    out
}

/// All files of `username`, with their paths as the user sees them.
pub fn list_files(index: &LocalIndex, username: &String) -> (r: Vec<FileRow>)
    requires
        index.wf(),
    ensures
        forall|i: int| 0 <= i < r@.len() ==> lists_row(index@, username@, #[trigger] r@[i]@),
        forall|p: Seq<char>|
            #[trigger] index@.contains_key((username@, p)) ==> exists|i: int|
                0 <= i < r@.len() && r@[i]@ == shown_record(username@, index@[(username@, p)]),
{
    let rows = get_files(index, username);
    let mut out: Vec<FileRow> = Vec::new();
    let mut i: usize = 0;
    while i < rows.len()
        invariant
            i <= rows@.len(),
            out@.len() == i,
            forall|j: int|
                0 <= j < i ==> #[trigger] out@[j]@ == (RecordView {
                    path: shown_path(username@, rows@[j]@.path),
                    ..rows@[j]@
                }),
        decreases rows@.len() - i,
    {
        out.push(shown_row(username.as_str(), &rows[i]));
        i = i + 1;
    }
    proof {
        assert forall|j: int| 0 <= j < out@.len() implies lists_row(index@, username@, #[trigger] out@[j]@) by {
            let p = rows@[j]@.path;
            assert(index@.contains_key((username@, p)));
            assert(out@[j]@ == shown_record(username@, index@[(username@, p)]));
        }
        assert forall|p: Seq<char>| #[trigger] index@.contains_key((username@, p)) implies exists|j: int|
            0 <= j < out@.len() && out@[j]@ == shown_record(username@, index@[(username@, p)]) by {
            let j = choose|j: int| 0 <= j < rows@.len() && rows@[j]@.path == p;
            assert(out@[j]@ == shown_record(username@, rows@[j]@));
        }
    }
    out
}

/// The metadata of the file a request names: a request without a path is
/// refused, a path with no row is not found.
pub fn file_metadata(index: &LocalIndex, username: &String, request: &FileRequest) -> (r: Result<FileRow, ApiResponse>)
    requires
        index.wf(),
    ensures
        request@ is None ==> (r matches Err(e) && is_error(e, 400, "BAD_REQUEST"@, "No path in request"@)),
        request@ matches Some(p) ==> (refused_path(username@, p) ==> (r matches Err(e) && is_error(
            e,
            400,
            "BAD_REQUEST"@,
            "Invalid path: must be relative and not contain '..'"@,
        ))),
        request@ matches Some(p) ==> !refused_path(username@, p) ==> ({
            let key = (username@, user_path(username@, p));
            &&& index@.contains_key(key) ==> (r matches Ok(row) && row@ == (RecordView {
                path: shown_path(username@, key.1),
                ..index@[key]
            }))
            &&& !index@.contains_key(key) ==> (r matches Err(e) && is_error(e, 404, "NOT_FOUND"@, "File not found"@))
        }),
{
    let path = match request.path() {
        Some(p) => p,
        None => return Err(bad_request_error(String::from_str("No path in request"))),
    };
    let target = request_target(username.as_str(), path.as_str());
    proof {
        if !is_absolute(path@) {
            lemma_user_path_inside(username@, path@);
        }
    }
    if escapes_base(path.as_str()) || escapes_base(target.as_str()) {
        return Err(bad_request_error(String::from_str("Invalid path: must be relative and not contain '..'")));
    }
    proof {
        index.lemma_keyed();
    }
    let rows = get_file(index, &target, username);
    if rows.len() > 0 {
        Ok(shown_row(username.as_str(), &rows[0]))
    } else {
        Err(not_found_error(String::from_str("File not found")))
    }
}

/// The target of a delete request, inside the user's directory: refused
/// without a path, and for a path that is absolute or holds `..`.
pub fn delete_target(username: &String, request: &FileRequest) -> (r: Result<String, ApiResponse>)
    ensures
        request@ is None ==> (r matches Err(e) && is_error(e, 400, "BAD_REQUEST"@, "No path found in request"@)),
        request@ matches Some(p) ==> (refused_path(username@, p) ==> (r matches Err(e) && is_error(
            e,
            400,
            "BAD_REQUEST"@,
            "Invalid path: must be relative and not contain '..'"@,
        ))),
        request@ matches Some(p) ==> (!refused_path(username@, p) ==> (r matches Ok(t) && t@ == user_path(
            username@,
            p,
        ))),
        r matches Ok(t) ==> starts_with(t@, "uploads/"@) && !has_parent_component(t@),
{
    let p = match request.path() {
        Some(p) => p,
        None => return Err(bad_request_error(String::from_str("No path found in request"))),
    };
    let target = request_target(username.as_str(), p.as_str());
    proof {
        if !is_absolute(p@) {
            lemma_user_path_inside(username@, p@);
        }
    }
    if escapes_base(p.as_str()) || escapes_base(target.as_str()) {
        return Err(bad_request_error(String::from_str("Invalid path: must be relative and not contain '..'")));
    }
    Ok(target)
}

/// Whether a file (not a directory) may be deleted: its row must be
/// stored for the user.
pub fn check_file_delete(index: &LocalIndex, username: &String, target: &String) -> (r: Result<(), ApiResponse>)
    requires
        index.wf(),
    ensures
        index@.contains_key((username@, target@)) ==> r is Ok,
        !index@.contains_key((username@, target@)) ==> (r matches Err(e) && is_error(e, 404, "NOT_FOUND"@, "File not found"@)),
{
    let rows = get_file(index, target, username);
    if rows.len() > 0 {
        Ok(())
    } else {
        Err(not_found_error(String::from_str("File not found")))
    }
}

} // verus!
