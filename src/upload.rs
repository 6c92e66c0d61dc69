//! The server's upload engine: the fields of a multipart upload are fed in
//! one by one; for each file it decides where the bytes go, refuses unsafe
//! paths and paths already stored, and records the stored row; per-file
//! outcomes are collected for the response.

use vstd::prelude::*;
use crate::index::{LocalIndex, get_file, insert_file};
use crate::keyed::KeyedMap;
use crate::models::{FileRow, RecordView};
use crate::paths::{escapes_base, format_file_path, has_parent_component, is_absolute, join, join_path, normalized};
use crate::text::{concat, has_char, owned, str_starts_with, suffix_from, starts_with};
use crate::time::{Timestamp, parse_rfc3339, rfc3339_value};

verus! {

/// The text left when leading and trailing whitespace is removed.
pub uninterp spec fn trimmed(s: Seq<char>) -> Seq<char>;

/// The file name that sanitize-filename makes of a client's file name.
pub uninterp spec fn sanitized(name: Seq<char>) -> Seq<char>;

/// Relies on `str::trim`: the text without leading and trailing
/// whitespace.
#[verifier::external_body]
fn trim_text(s: &str) -> (r: String)
    ensures
        r@ == trimmed(s@),
{
    s.trim().to_string()
}

/// Relies on `sanitize_filename::sanitize` with default options: its
/// pattern of illegal characters removes every `/` and `\`.
#[verifier::external_body]
fn sanitize_name(name: &str) -> (r: String)
    ensures
        r@ == sanitized(name@),
        !has_char(r@, '/'),
        !has_char(r@, '\\'),
{
    sanitize_filename::sanitize(name)
}

/// The directory that holds a user's files.
pub open spec fn base_dir(user: Seq<char>) -> Seq<char> {
    "uploads/"@ + user
}

/// The directory where a file goes, given the relative path its client
/// declared (possibly empty).
pub open spec fn target_dir(user: Seq<char>, rel: Seq<char>) -> Seq<char> {
    if rel.len() == 0 {
        base_dir(user)
    } else {
        join_path(base_dir(user), rel)
    }
}

/// The kind of a multipart field, by the prefix of its name.
pub enum FieldKind {
    /// `last_modified_<F>`, with `<F>`.
    LastModified(String),
    /// `path_<F>`, with `<F>`.
    Path(String),
    /// `file_<F>`.
    File,
    /// Any other name.
    Other,
}

/// Tells the kind of a multipart field from its name.
pub fn classify_field(name: &str) -> (r: FieldKind)
    ensures
        starts_with(name@, "last_modified_"@) ==> (r matches FieldKind::LastModified(f) && f@ == name@.subrange(
            14,
            name@.len() as int,
        )),
        !starts_with(name@, "last_modified_"@) && starts_with(name@, "path_"@) ==> (r matches FieldKind::Path(
            f,
        ) && f@ == name@.subrange(5, name@.len() as int)),
        !starts_with(name@, "last_modified_"@) && !starts_with(name@, "path_"@) && starts_with(name@, "file_"@)
            ==> r is File,
        !starts_with(name@, "last_modified_"@) && !starts_with(name@, "path_"@) && !starts_with(name@, "file_"@)
            ==> r is Other,
{
    proof {
        reveal_strlit("last_modified_");
        reveal_strlit("path_");
    }
    if str_starts_with(name, "last_modified_") {
        FieldKind::LastModified(suffix_from(name, 14))
    } else if str_starts_with(name, "path_") {
        FieldKind::Path(suffix_from(name, 5))
    } else if str_starts_with(name, "file_") {
        FieldKind::File
    } else {
        FieldKind::Other
    }
}

/// Where the bytes of one file go.
pub enum FilePlan {
    /// The file was refused; the reason is in the failure map.
    Skip,
    /// Create `dir`, write the bytes to `disk_path`, then complete the file
    /// under `filename` with the row path `stored_path`.
    Write { filename: String, dir: String, disk_path: String, stored_path: String },
}

/// The relative directory declared for the file `f` (empty where none was).
pub open spec fn declared_dir(s: SessionView, f: Seq<char>) -> Seq<char> {
    if s.paths.contains_key(f) { s.paths[f] } else { Seq::empty() }
}

/// The directory where the file sent under the client name `raw` goes.
pub open spec fn planned_dir(s: SessionView, raw: Seq<char>) -> Seq<char> {
    target_dir(s.username, declared_dir(s, sanitized(raw)))
}

/// The row path of the file sent under the client name `raw`, or `None`
/// where its declared directory is absolute or holds `..`.
pub open spec fn planned_path(s: SessionView, raw: Seq<char>) -> Option<Seq<char>> {
    let rel = declared_dir(s, sanitized(raw));
    if rel.len() > 0 && (is_absolute(rel) || has_parent_component(rel)) {
        None
    } else {
        Some(normalized(join_path(planned_dir(s, raw), sanitized(raw))))
    }
}

/// The values of a map of texts, as text.
pub open spec fn texts(m: Map<Seq<char>, String>) -> Map<Seq<char>, Seq<char>> {
    m.map_values(|s: String| s@)
}

/// The state of one upload request.
pub struct UploadSession {
    username: String,
    last_modified: KeyedMap<Timestamp>,
    paths: KeyedMap<String>,
    uploaded: KeyedMap<String>,
    failed: KeyedMap<String>,
}

/// What the state of an upload request says.
pub struct SessionView {
    pub username: Seq<char>,
    pub last_modified: Map<Seq<char>, Timestamp>,
    pub paths: Map<Seq<char>, Seq<char>>,
    pub uploaded: Map<Seq<char>, Seq<char>>,
    pub failed: Map<Seq<char>, Seq<char>>,
}

impl View for UploadSession {
    type V = SessionView;

    closed spec fn view(&self) -> SessionView {
        SessionView {
            username: self.username@,
            last_modified: self.last_modified@,
            paths: texts(self.paths@),
            uploaded: texts(self.uploaded@),
            failed: texts(self.failed@),
        }
    }
}

impl UploadSession {
    pub closed spec fn wf(&self) -> bool {
        self.last_modified.wf() && self.paths.wf() && self.uploaded.wf() && self.failed.wf()
    }

    /// A fresh request on behalf of `username`.
    pub fn new(username: String) -> (r: UploadSession)
        ensures
            r.wf(),
            r@ == (SessionView {
                username: username@,
                last_modified: Map::empty(),
                paths: Map::empty(),
                uploaded: Map::empty(),
                failed: Map::empty(),
            }),
    {
        let r = UploadSession {
            username,
            last_modified: KeyedMap::new(),
            paths: KeyedMap::new(),
            uploaded: KeyedMap::new(),
            failed: KeyedMap::new(),
        };
        assert(texts(r.paths@) =~= Map::empty());
        assert(texts(r.uploaded@) =~= Map::empty());
        assert(texts(r.failed@) =~= Map::empty());
        r
    }

    /// Records a failure for `key`, replacing an earlier one.
    pub fn fail(&mut self, key: String, reason: String)
        requires
            old(self).wf(),
        ensures
            final(self).wf(),
            final(self)@ == (SessionView { failed: old(self)@.failed.insert(key@, reason@), ..old(self)@ }),
    {
        let ghost k = key@;
        let ghost v = reason;
        self.failed.insert(key, reason);
        assert(texts(self.failed@) =~= texts(old(self).failed@).insert(k, v@));
    }

    /// A field without content: recorded as a failure under its name.
    pub fn record_no_content(&mut self, field_name: Option<&str>)
        requires
            old(self).wf(),
        ensures
            final(self).wf(),
            final(self)@ == (SessionView {
                failed: old(self)@.failed.insert(
                    "Unknown "@ + match field_name {
                        Some(n) => n@,
                        None => "N/A field"@,
                    },
                    "No content found"@,
                ),
                ..old(self)@
            }),
    {
        let name = match field_name {
            Some(n) => n,
            None => "N/A field",
        };
        self.fail(concat("Unknown ", name), String::from_str("No content found"));
    }

    /// A `last_modified_<F>` field: its trimmed text is read as RFC 3339;
    /// the instant is kept for `<F>`, or the reason it could not be read is
    /// recorded as a failure of `<F>`.
    pub fn record_last_modified(&mut self, filename: &str, raw: &str)
        requires
            old(self).wf(),
        ensures
            final(self).wf(),
            final(self)@.username == old(self)@.username,
            final(self)@.paths == old(self)@.paths,
            final(self)@.uploaded == old(self)@.uploaded,
            rfc3339_value(trimmed(raw@)) matches Some(v) ==> final(self)@.last_modified == old(
                self,
            )@.last_modified.insert(filename@, Timestamp { secs: v.0, nanos: v.1 }) && final(self)@.failed
                == old(self)@.failed,
            rfc3339_value(trimmed(raw@)) is None ==> final(self)@.last_modified == old(self)@.last_modified
                && final(self)@.failed.dom() == old(self)@.failed.dom().insert(filename@),
    {
        let text = trim_text(raw);
        match parse_rfc3339(text.as_str()) {
            Ok(t) => {
                self.last_modified.insert(owned(filename), t);
            },
            Err(e) => {
                self.fail(owned(filename), e);
            },
        }
    }

    /// A `path_<F>` field: its trimmed text is kept as the relative
    /// directory of `<F>`.
    pub fn record_path(&mut self, filename: &str, raw: &str)
        requires
            old(self).wf(),
        ensures
            final(self).wf(),
            final(self)@ == (SessionView { paths: old(self)@.paths.insert(filename@, trimmed(raw@)), ..old(self)@ }),
    {
        let ghost k = filename@;
        let text = trim_text(raw);
        let ghost v = text;
        self.paths.insert(owned(filename), text);
        assert(texts(self.paths@) =~= texts(old(self).paths@).insert(k, v@));
    }

    /// A `file_<F>` field, whose client-side file name is `raw_filename`.
    /// The name is sanitized; the relative directory declared for it (none
    /// where no `path_` field came) must be relative and free of `..`; the
    /// row path must not be stored yet for this user. Where any of this
    /// fails, the reason is recorded and the file skipped; otherwise the
    /// plan says where its bytes go.
    pub fn plan_file(&mut self, index: &LocalIndex, raw_filename: Option<&str>, field_name: &str) -> (r: FilePlan)
        requires
            old(self).wf(),
            index.wf(),
        ensures
            final(self).wf(),
            raw_filename is None ==> r is Skip && final(self)@ == (SessionView {
                failed: old(self)@.failed.insert("Unknown file "@ + field_name@, "Missing filename"@),
                ..old(self)@
            }),
            raw_filename matches Some(raw) ==> ({
                let f = sanitized(raw@);
                let user = old(self)@.username;
                match planned_path(old(self)@, raw@) {
                    None => r is Skip && final(self)@ == (SessionView {
                        failed: old(self)@.failed.insert(f, "Invalid path: must be relative and not contain '..'"@),
                        ..old(self)@
                    }),
                    Some(stored) => if index@.contains_key((user, stored)) {
                        r is Skip && final(self)@ == (SessionView {
                            failed: old(self)@.failed.insert(f, "File already exists"@),
                            ..old(self)@
                        })
                    } else {
                        final(self)@ == old(self)@ && (r matches FilePlan::Write { filename, dir: d, disk_path, stored_path }
                            && filename@ == f && d@ == planned_dir(old(self)@, raw@) && disk_path@ == join_path(
                            planned_dir(old(self)@, raw@),
                            f,
                        ) && stored_path@ == stored)
                    },
                }
            }),
    {
        let raw = match raw_filename {
            Some(raw) => raw,
            None => {
                self.fail(concat("Unknown file ", field_name), String::from_str("Missing filename"));
                return FilePlan::Skip;
            },
        };
        let filename = sanitize_name(raw);
        let base = concat("uploads/", self.username.as_str());
        let dir = match self.paths.get(filename.as_str()) {
            Some(rel) => {
                if rel.unicode_len() == 0 {
                    base
                } else if escapes_base(rel.as_str()) {
                    self.fail(filename, String::from_str("Invalid path: must be relative and not contain '..'"));
                    return FilePlan::Skip;
                } else {
                    join(base.as_str(), rel.as_str())
                }
            },
            None => base,
        };
        let disk_path = join(dir.as_str(), filename.as_str());
        let stored_path = format_file_path(&disk_path);
        let rows = get_file(index, &stored_path, &self.username);
        if rows.len() > 0 {
            self.fail(filename, String::from_str("File already exists"));
            return FilePlan::Skip;
        }
        FilePlan::Write { filename, dir, disk_path, stored_path }
    }

    /// Completes a file whose bytes were written: without a hash it fails;
    /// otherwise its row, with the instant declared for it or `now`, is
    /// added to the index for this user, and the file is recorded as
    /// uploaded, or as failed where the row was already stored. Says
    /// whether the row was added.
    pub fn complete_file(
        &mut self,
        index: &mut LocalIndex,
        filename: &str,
        stored_path: &str,
        hash: Option<String>,
        now: Timestamp,
    ) -> (r: bool)
        requires
            old(self).wf(),
            old(index).wf(),
        ensures
            final(self).wf(),
            r == (hash is Some && !old(index)@.contains_key((old(self)@.username, stored_path@))),
            final(self)@.username == old(self)@.username,
            final(self)@.paths == old(self)@.paths,
            final(self)@.last_modified == old(self)@.last_modified,
            ({
                let user = old(self)@.username;
                let lm = if old(self)@.last_modified.contains_key(filename@) {
                    old(self)@.last_modified[filename@]
                } else {
                    now
                };
                match hash {
                    None => final(index)@ == old(index)@ && final(self)@.uploaded == old(self)@.uploaded
                        && final(self)@.failed == old(self)@.failed.insert(filename@, "Failed to hash file"@),
                    Some(h) => if old(index)@.contains_key((user, stored_path@)) {
                        final(index)@ == old(index)@ && final(self)@.uploaded == old(self)@.uploaded
                            && final(self)@.failed == old(self)@.failed.insert(filename@, "row already exists"@)
                    } else {
                        final(index)@ == old(index)@.insert(
                            (user, stored_path@),
                            RecordView { path: stored_path@, hash: h@, last_modified: lm },
                        ) && final(self)@.failed == old(self)@.failed && final(self)@.uploaded == old(
                            self,
                        )@.uploaded.insert(filename@, "Success!"@)
                    },
                }
            }),
    {
        let h = match hash {
            Some(h) => h,
            None => {
                self.fail(owned(filename), String::from_str("Failed to hash file"));
                return false;
            },
        };
        let lm = match self.last_modified.get(filename) {
            Some(t) => *t,
            None => now,
        };
        let row = FileRow::new(owned(stored_path), h, lm);
        match insert_file(index, &row, &self.username) {
            Ok(()) => {
                let ghost k = filename@;
                self.uploaded.insert(owned(filename), String::from_str("Success!"));
                assert(texts(self.uploaded@) =~= texts(old(self).uploaded@).insert(k, "Success!"@));
                true
            },
            Err(e) => {
                self.fail(owned(filename), e.message());
                false
            },
        }
    }

    /// Whether any file was processed, successfully or not; where none was,
    /// the request is answered with an error.
    pub fn any_processed(&self) -> (r: bool)
        requires
            self.wf(),
        ensures
            r == !(self@.uploaded == Map::<Seq<char>, Seq<char>>::empty() && self@.failed == Map::<
                Seq<char>,
                Seq<char>,
            >::empty()),
    {
        let a = self.uploaded.is_empty();
        let b = self.failed.is_empty();
        proof {
            if !a && self@.uploaded == Map::<Seq<char>, Seq<char>>::empty() {
                assert(self.uploaded@ =~= Map::empty()) by {
                    assert forall|k: Seq<char>| !self.uploaded@.contains_key(k) by {
                        if self.uploaded@.contains_key(k) {
                            assert(self@.uploaded.contains_key(k));
                        }
                    }
                }
            }
            if !b && self@.failed == Map::<Seq<char>, Seq<char>>::empty() {
                assert(self.failed@ =~= Map::empty()) by {
                    assert forall|k: Seq<char>| !self.failed@.contains_key(k) by {
                        if self.failed@.contains_key(k) {
                            assert(self@.failed.contains_key(k));
                        }
                    }
                }
            }
            if a {
                assert(self@.uploaded =~= Map::empty());
            }
            if b {
                assert(self@.failed =~= Map::empty());
            }
        }
        !(a && b)
    }

    /// The files uploaded, each with its message.
    pub fn uploaded(&self) -> (r: &KeyedMap<String>)
        ensures
            texts(r@) == self@.uploaded,
    {
        &self.uploaded
    }

    /// The files that failed, each with its reason.
    pub fn failed(&self) -> (r: &KeyedMap<String>)
        ensures
            texts(r@) == self@.failed,
    {
        &self.failed
    }
}

/// Duplicate uploads: two requests by one user that send the same file
/// name with the same declared directory, handled one after the other on
/// one index where that row path is not stored yet. The first is planned
/// for writing and, once completed with a hash, stores the row and records
/// the file as uploaded; the second then finds the row and is refused with
/// "File already exists"; the index holds that path once, with the first
/// request's record.
pub proof fn lemma_duplicate_upload(
    s1: SessionView,
    s2: SessionView,
    m: Map<(Seq<char>, Seq<char>), RecordView>,
    raw: Seq<char>,
    rec: RecordView,
)
    requires
        s1.username == s2.username,
        declared_dir(s1, sanitized(raw)) == declared_dir(s2, sanitized(raw)),
        planned_path(s1, raw) is Some,
        !m.contains_key((s1.username, planned_path(s1, raw).unwrap())),
    ensures
        ({
            let k = (s1.username, planned_path(s1, raw).unwrap());
            let m1 = m.insert(k, rec);
            &&& planned_path(s2, raw) == planned_path(s1, raw)
            &&& m1.contains_key((s2.username, planned_path(s2, raw).unwrap()))
            &&& m1[k] == rec
            &&& m1.remove(k) == m
        }),
{
    let k = (s1.username, planned_path(s1, raw).unwrap());
    assert(m.insert(k, rec).remove(k) =~= m);
}

} // verus!
