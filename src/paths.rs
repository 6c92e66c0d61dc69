//! Path canonicalization: eligibility of a file for sync, normalization of
//! path text, and the mapping from an absolute path on disk to the path under
//! which the index knows it.

use vstd::prelude::*;
use crate::text::{ends_with, starts_with, has_char, str_ends_with, suffix_from, prefix_to, concat, concat3};

verus! {

/// A backslash becomes a forward slash; every other character stays.
pub open spec fn slash_of(c: char) -> char {
    if c == '\\' { '/' } else { c }
}

/// `s` with every backslash replaced by a forward slash.
pub open spec fn forward_slashes(s: Seq<char>) -> Seq<char> {
    s.map_values(|c: char| slash_of(c))
}

/// `s` starts with `./`.
pub open spec fn starts_with_dot_slash(s: Seq<char>) -> bool {
    s.len() >= 2 && s[0] == '.' && s[1] == '/'
}

/// `s` without its leading `./` prefixes.
pub open spec fn strip_dot_slash(s: Seq<char>) -> Seq<char>
    decreases s.len(),
{
    if starts_with_dot_slash(s) {
        strip_dot_slash(s.subrange(2, s.len() as int))
    } else {
        s
    }
}

/// The normal form of a path text: forward slashes only, no leading `./`.
pub open spec fn normalized(s: Seq<char>) -> Seq<char> {
    strip_dot_slash(forward_slashes(s))
}

/// A file name that carries one of the editor or backup markers `~`,
/// `.tmp`, `.swp`.
pub open spec fn is_temp_name(name: Seq<char>) -> bool {
    ends_with(name, seq!['~']) || ends_with(name, seq!['.', 't', 'm', 'p']) || ends_with(
        name,
        seq!['.', 's', 'w', 'p'],
    )
}

/// The file name of a path, as the last component of a Unix path:
/// trailing separators and `.` components are ignored; empty where the
/// path has no such component or its last one is `..`.
pub open spec fn path_file_name(s: Seq<char>) -> Seq<char>
    decreases s.len(),
{
    if s.len() == 0 {
        Seq::empty()
    } else if s.last() == '/' {
        path_file_name(s.drop_last())
    } else if s.len() >= 2 && s[s.len() - 1] == '.' && s[s.len() - 2] == '/' {
        path_file_name(s.subrange(0, s.len() - 2))
    } else if s == seq!['.'] {
        Seq::empty()
    } else if file_name_of(s) == seq!['.', '.'] {
        Seq::empty()
    } else {
        file_name_of(s)
    }
}

/// A path is eligible for sync when it is not a directory and its file name
/// carries no temporary-file marker.
pub open spec fn eligible(p: Seq<char>, is_dir: bool) -> bool {
    !is_dir && !is_temp_name(path_file_name(p))
}

/// Where `p` lies under `root`, the rest of it, without the separator;
/// `None` where `root` is not a leading run of whole components of `p`.
pub open spec fn relative_to(root: Seq<char>, p: Seq<char>) -> Option<Seq<char>> {
    if !starts_with(p, root) {
        None
    } else if root.len() == 0 || p.len() == root.len() || root.last() == '/' {
        Some(p.subrange(root.len() as int, p.len() as int))
    } else if p[root.len() as int] == '/' {
        Some(p.subrange(root.len() as int + 1, p.len() as int))
    } else {
        None
    }
}

/// `rel` appended to `base` as one more component: an absolute `rel`
/// replaces `base`, and a separator is added only where `base` lacks one.
pub open spec fn join_path(base: Seq<char>, rel: Seq<char>) -> Seq<char> {
    if rel.len() > 0 && rel[0] == '/' {
        rel
    } else if base.len() == 0 {
        rel
    } else if base.last() == '/' {
        base + rel
    } else {
        base + seq!['/'] + rel
    }
}

/// The index path of the file at `abs`: its place under the canonical
/// watch root, rejoined under the root as the user spelled it, normalized.
pub open spec fn scope_path_of(supplied: Seq<char>, canonical: Seq<char>, abs: Seq<char>) -> Option<Seq<char>> {
    match relative_to(canonical, abs) {
        Some(rel) => Some(normalized(join_path(supplied, rel))),
        None => None,
    }
}

/// The index of the last `c` in `s`, or -1.
pub open spec fn last_index_of(s: Seq<char>, c: char) -> int
    decreases s.len(),
{
    if s.len() == 0 {
        -1
    } else if s.last() == c {
        s.len() - 1
    } else {
        last_index_of(s.drop_last(), c)
    }
}

/// The text after the last `/` of `s` (all of it where there is none).
pub open spec fn file_name_of(s: Seq<char>) -> Seq<char> {
    s.subrange(last_index_of(s, '/') + 1, s.len() as int)
}

/// The text before the last `/` of `s` (empty where there is none).
pub open spec fn dir_of(s: Seq<char>) -> Seq<char> {
    if last_index_of(s, '/') < 0 {
        Seq::empty()
    } else {
        s.subrange(0, last_index_of(s, '/'))
    }
}

/// `s` names an absolute path.
pub open spec fn is_absolute(s: Seq<char>) -> bool {
    s.len() > 0 && s[0] == '/'
}

/// A `..` component starts at `i` in `s`.
pub open spec fn parent_component_at(s: Seq<char>, i: int) -> bool {
    0 <= i && i + 2 <= s.len() && s[i] == '.' && s[i + 1] == '.' && (i == 0 || s[i - 1] == '/') && (i
        + 2 == s.len() || s[i + 2] == '/')
}

/// `s` holds a `..` component.
pub open spec fn has_parent_component(s: Seq<char>) -> bool {
    exists|i: int| parent_component_at(s, i)
}

proof fn lemma_last_index_bounds(s: Seq<char>, c: char)
    ensures
        -1 <= last_index_of(s, c) < s.len(),
        last_index_of(s, c) >= 0 ==> s[last_index_of(s, c)] == c,
        forall|j: int| last_index_of(s, c) < j < s.len() ==> s[j] != c,
    decreases s.len(),
{
    if s.len() > 0 && s.last() != c {
        let t = s.drop_last();
        lemma_last_index_bounds(t, c);
        assert forall|j: int| last_index_of(s, c) < j < s.len() implies s[j] != c by {
            if j < t.len() {
                assert(s[j] == t[j]);
            }
        }
    }
}

proof fn lemma_last_index_step(s: Seq<char>, c: char, k: int)
    requires
        0 <= k <= s.len(),
        forall|j: int| k <= j < s.len() ==> s[j] != c,
    ensures
        last_index_of(s, c) == last_index_of(s.subrange(0, k), c),
    decreases s.len() - k,
{
    if k < s.len() {
        assert(s.drop_last() =~= s.subrange(0, s.len() - 1));
        lemma_last_index_step(s.drop_last(), c, k);
        assert(s.drop_last().subrange(0, k) =~= s.subrange(0, k));
    } else {
        assert(s.subrange(0, k) =~= s);
    }
}

/// The file name of a path, as `path_file_name` says.
pub fn file_name(path: &String) -> (r: String)
    ensures
        r@ == path_file_name(path@),
{
    let s = path.as_str();
    let len = s.unicode_len();
    let mut n: usize = len;
    assert(s@.subrange(0, len as int) =~= s@);
    while n > 0 && (s.get_char(n - 1) == '/' || (n >= 2 && s.get_char(n - 1) == '.' && s.get_char(n - 2) == '/'))
        invariant
            len == s@.len(),
            s@ == path@,
            n <= len,
            path_file_name(s@) == path_file_name(s@.subrange(0, n as int)),
        decreases n,
    {
        let t = Ghost(s@.subrange(0, n as int));
        if s.get_char(n - 1) == '/' {
            assert(t@.drop_last() =~= s@.subrange(0, n - 1));
            n = n - 1;
        } else {
            assert(t@.subrange(0, n - 2) =~= s@.subrange(0, n - 2));
            n = n - 2;
        }
    }
    let t = prefix_to(s, n);
    if n == 1 && t.as_str().get_char(0) == '.' {
        assert(t@ =~= seq!['.']);
        return String::new();
    }
    let (name, _) = extract_filename_filepath(&t);
    let nm = name.as_str();
    if nm.unicode_len() == 2 && nm.get_char(0) == '.' && nm.get_char(1) == '.' {
        assert(name@ =~= seq!['.', '.']);
        return String::new();
    }
    proof {
        if n > 0 {
            assert(t@ != seq!['.']) by {
                if t@ == seq!['.'] {
                    assert(t@[0] == '.');
                }
            }
        }
        if name@ == seq!['.', '.'] {
            assert(nm@[0] == '.' && nm@[1] == '.');
        }
    }
    name
}

/// Eligibility of a path for sync: false for a directory and for a path
/// whose file name ends in `~`, `.tmp` or `.swp`.
pub fn check_file_path(path: &String, is_dir: bool) -> (r: bool)
    ensures
        r == eligible(path@, is_dir),
{
    proof {
        reveal_strlit("~");
        reveal_strlit(".tmp");
        reveal_strlit(".swp");
        assert("~"@ =~= seq!['~']);
        assert(".tmp"@ =~= seq!['.', 't', 'm', 'p']);
        assert(".swp"@ =~= seq!['.', 's', 'w', 'p']);
    }
    if is_dir {
        return false;
    }
    let name = file_name(path);
    let p = name.as_str();
    !(str_ends_with(p, "~") || str_ends_with(p, ".tmp") || str_ends_with(p, ".swp"))
}

/// Normalizes path text: backslashes become forward slashes and leading
/// `./` prefixes are removed.
pub fn format_file_path(path: &String) -> (r: String)
    ensures
        r@ == normalized(path@),
{
    proof {
        reveal_strlit("/");
    }
    let s = path.as_str();
    let n = s.unicode_len();
    let mut out = String::new();
    let mut i: usize = 0;
    while i < n
        invariant
            n == s@.len(),
            s@ == path@,
            i <= n,
            out@ == forward_slashes(s@.subrange(0, i as int)),
        decreases n - i,
    {
        let c = s.get_char(i);
        if c == '\\' {
            proof {
                reveal_strlit("/");
            }
            assert("/"@ =~= seq!['/']);
            out.append("/");
        } else {
            let one = s.substring_char(i, i + 1);
            assert(one@ =~= seq![c]);
            out.append(one);
        }
        assert(forward_slashes(s@.subrange(0, i + 1)) =~= forward_slashes(s@.subrange(0, i as int)).push(
            slash_of(c),
        ));
        i = i + 1;
    }
    assert(s@.subrange(0, n as int) =~= s@);
    let t = out.as_str();
    assert(t@.subrange(0, n as int) =~= t@);
    let mut k: usize = 0;
    while k < n && n - k >= 2 && t.get_char(k) == '.' && t.get_char(k + 1) == '/'
        invariant
            t@ == out@,
            n == t@.len(),
            k <= n,
            strip_dot_slash(t@) == strip_dot_slash(t@.subrange(k as int, n as int)),
        decreases n - k,
    {
        assert(t@.subrange(k as int, n as int).subrange(2, n - k) =~= t@.subrange(k + 2, n as int));
        k = k + 2;
    }
    assert(!starts_with_dot_slash(t@.subrange(k as int, n as int)));
    suffix_from(t, k)
}

/// The place of `abs` under `root`, as in `relative_to`.
pub fn relative_path(root: &str, abs: &str) -> (r: Option<String>)
    ensures
        r matches Some(x) ==> relative_to(root@, abs@) == Some(x@),
        r is None ==> relative_to(root@, abs@) is None,
{
    if !crate::text::str_starts_with(abs, root) {
        return None;
    }
    let rn = root.unicode_len();
    let an = abs.unicode_len();
    if rn == 0 || an == rn || root.get_char(rn - 1) == '/' {
        Some(suffix_from(abs, rn))
    } else if abs.get_char(rn) == '/' {
        Some(suffix_from(abs, rn + 1))
    } else {
        None
    }
}

/// Appends `rel` to `base` as one more path component.
pub fn join(base: &str, rel: &str) -> (r: String)
    ensures
        r@ == join_path(base@, rel@),
{
    proof {
        reveal_strlit("/");
    }
    let bn = base.unicode_len();
    let rn = rel.unicode_len();
    if rn > 0 && rel.get_char(0) == '/' {
        crate::text::owned(rel)
    } else if bn == 0 {
        crate::text::owned(rel)
    } else if base.get_char(bn - 1) == '/' {
        concat(base, rel)
    } else {
        concat3(base, "/", rel)
    }
}

/// The index path of the file at `abs_path`: its place under the canonical
/// watch root, rejoined under the root as the user supplied it, then
/// normalized. `None` where the file does not lie under the canonical root.
pub fn to_scope_path(supplied: &String, canonical: &String, abs_path: &String) -> (r: Option<String>)
    ensures
        r matches Some(x) ==> scope_path_of(supplied@, canonical@, abs_path@) == Some(x@),
        r is None ==> scope_path_of(supplied@, canonical@, abs_path@) is None,
{
    match relative_path(canonical.as_str(), abs_path.as_str()) {
        Some(rel) => {
            let joined = join(supplied.as_str(), rel.as_str());
            Some(format_file_path(&joined))
        },
        None => None,
    }
}

/// Splits a path at its last `/` into the file name and the directory part
/// before it (empty where the path holds no `/`).
pub fn extract_filename_filepath(full_path: &String) -> (r: (String, String))
    ensures
        r.0@ == file_name_of(full_path@),
        r.1@ == dir_of(full_path@),
{
    let s = full_path.as_str();
    let n = s.unicode_len();
    let mut k: usize = n;
    while k > 0 && s.get_char(k - 1) != '/'
        invariant
            n == s@.len(),
            k <= n,
            forall|j: int| k <= j < n ==> s@[j] != '/',
        decreases k,
    {
        k = k - 1;
    }
    proof {
        lemma_last_index_step(s@, '/', k as int);
        if k > 0 {
            let t = s@.subrange(0, k as int);
            assert(t.last() == '/');
        } else {
            assert(s@.subrange(0, 0) =~= Seq::<char>::empty());
        }
    }
    if k == 0 {
        (suffix_from(s, 0), String::new())
    } else {
        (suffix_from(s, k), prefix_to(s, k - 1))
    }
}

/// Whether `p` is absolute or holds a `..` component: such a path would
/// leave the directory it is meant to stay under.
pub fn escapes_base(p: &str) -> (r: bool)
    ensures
        r == (is_absolute(p@) || has_parent_component(p@)),
{
    let n = p.unicode_len();
    if n > 0 && p.get_char(0) == '/' {
        return true;
    }
    let mut i: usize = 0;
    while i < n && n - i >= 2
        invariant
            n == p@.len(),
            forall|j: int| 0 <= j < i ==> !parent_component_at(p@, j),
        decreases n - i,
    {
        if p.get_char(i) == '.' && p.get_char(i + 1) == '.' && (i == 0 || p.get_char(i - 1) == '/') && (i
            + 2 == n || p.get_char(i + 2) == '/') {
            assert(parent_component_at(p@, i as int));
            return true;
        }
        i = i + 1;
    }
    assert forall|j: int| !parent_component_at(p@, j) by {
        if 0 <= j && j < i {
        }
    }
    false
}

proof fn lemma_strip_shape(s: Seq<char>)
    ensures
        !starts_with_dot_slash(strip_dot_slash(s)),
        (forall|j: int| 0 <= j < s.len() ==> s[j] != '\\') ==> !has_char(strip_dot_slash(s), '\\'),
    decreases s.len(),
{
    if starts_with_dot_slash(s) {
        let t = s.subrange(2, s.len() as int);
        lemma_strip_shape(t);
        if forall|j: int| 0 <= j < s.len() ==> s[j] != '\\' {
            assert forall|j: int| 0 <= j < t.len() implies t[j] != '\\' by {
                assert(t[j] == s[j + 2]);
            }
        }
    }
}

/// Normalization is idempotent, and a normalized path holds no backslash
/// and does not start with `./`.
pub proof fn lemma_normalize_idempotent(x: Seq<char>)
    ensures
        normalized(normalized(x)) == normalized(x),
        !has_char(normalized(x), '\\'),
        !starts_with(normalized(x), seq!['.', '/']),
{
    let f = forward_slashes(x);
    assert forall|j: int| 0 <= j < f.len() implies f[j] != '\\' by {}
    lemma_strip_shape(f);
    let y = normalized(x);
    assert(forward_slashes(y) =~= y);
    if starts_with(y, seq!['.', '/']) {
        assert(y.subrange(0, 2)[0] == '.');
        assert(y.subrange(0, 2)[1] == '/');
    }
}

} // verus!
