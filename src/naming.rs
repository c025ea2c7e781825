//! Where a file goes once it is hashed: the digest replaces the file's stem,
//! the extension is kept, and the directory does not change.
//!
//! Paths and file names are raw byte strings, with `/` as the separator.
use vstd::prelude::*;

use vstd::slice::{slice_subrange, slice_to_vec};

use crate::digest::{digest_hex, digest_name};
use crate::hex::{is_hex_char, is_hex_digest};

verus! {

/// The byte `.`.
pub const DOT: u8 = 46;

/// The byte `/`.
pub const SLASH: u8 = 47;

/// Index of the last `c` in `s`, or `-1` when `s` holds none.
pub open spec fn last_index(s: Seq<u8>, c: u8) -> int
    decreases s.len(),
{
    if s.len() == 0 {
        -1
    } else if s.last() == c {
        s.len() - 1
    } else {
        last_index(s.drop_last(), c)
    }
}

/// The extension of a file name: what follows its last `.`, unless there is
/// no `.`, the only `.` leads the name (`.bashrc`), or the name is `..`.
/// A name that ends in `.` has an empty extension.
pub open spec fn extension_of(name: Seq<u8>) -> Option<Seq<u8>> {
    let i = last_index(name, DOT);
    if name == seq![DOT, DOT] || i <= 0 {
        None
    } else {
        Some(name.subrange(i + 1, name.len() as int))
    }
}

/// The new name of a file called `name` whose digest is `digest`: the digest,
/// then `.` and the extension where the extension is not empty.
pub open spec fn hashed_name(digest: Seq<u8>, name: Seq<u8>) -> Seq<u8> {
    match extension_of(name) {
        Some(e) => if e.len() > 0 {
            digest + seq![DOT] + e
        } else {
            digest
        },
        None => digest,
    }
}

/// The directory part of a path, with its trailing `/` (empty without one).
pub open spec fn dir_of(path: Seq<u8>) -> Seq<u8> {
    path.subrange(0, last_index(path, SLASH) + 1)
}

/// The last component of a path: what follows its last `/`.
pub open spec fn file_name_of(path: Seq<u8>) -> Seq<u8> {
    path.subrange(last_index(path, SLASH) + 1, path.len() as int)
}

/// `path` with its file name replaced by the hashed name for `digest`.
pub open spec fn renamed(path: Seq<u8>, digest: Seq<u8>) -> Seq<u8> {
    dir_of(path) + hashed_name(digest, file_name_of(path))
}

/// Where a file at `path` with contents `content` is moved to.
pub open spec fn target_of(path: Seq<u8>, content: Seq<u8>) -> Seq<u8> {
    renamed(path, digest_name(content))
}

/// What `last_index` returns: a position of `c` with none after it.
pub proof fn lemma_last_index(s: Seq<u8>, c: u8)
    ensures
        -1 <= last_index(s, c) < s.len(),
        last_index(s, c) >= 0 ==> s[last_index(s, c)] == c,
        forall|j: int| last_index(s, c) < j < s.len() ==> s[j] != c,
    decreases s.len(),
{
    if s.len() > 0 && s.last() != c {
        lemma_last_index(s.drop_last(), c);
        assert forall|j: int| last_index(s, c) < j < s.len() implies s[j] != c by {
            if j < s.len() - 1 {
                assert(s[j] == s.drop_last()[j]);
            }
        }
    }
}

/// A position of `c` with none after it (or `-1` where `s` has none) is the
/// last index of `c`.
pub proof fn lemma_last_index_at(s: Seq<u8>, c: u8, i: int)
    requires
        -1 <= i < s.len(),
        i >= 0 ==> s[i] == c,
        forall|j: int| i < j < s.len() ==> s[j] != c,
    ensures
        last_index(s, c) == i,
    decreases s.len(),
{
    if s.len() > 0 && s.last() != c {
        lemma_last_index_at(s.drop_last(), c, i);
    }
}

/// Giving a file its hashed name twice gives the same name as doing it once.
pub proof fn lemma_hashed_name_stable(d: Seq<u8>, n: Seq<u8>)
    requires
        is_hex_digest(d),
    ensures
        hashed_name(d, hashed_name(d, n)) == hashed_name(d, n),
        (forall|k: int| 0 <= k < n.len() ==> n[k] != SLASH) ==> (forall|k: int|
            0 <= k < hashed_name(d, n).len() ==> #[trigger] hashed_name(d, n)[k] != SLASH),
{
    let i = last_index(n, DOT);
    lemma_last_index(n, DOT);
    let m = hashed_name(d, n);
    if extension_of(n) is Some && extension_of(n)->0.len() > 0 {
        let e = extension_of(n)->0;
        assert(m == d + seq![DOT] + e);
        assert(is_hex_char(d[0]));
        assert forall|j: int| d.len() < j < m.len() implies m[j] != DOT by {
            assert(m[j] == n[i + 1 + (j - d.len() - 1)]);
        }
        lemma_last_index_at(m, DOT, d.len() as int);
        assert(m != seq![DOT, DOT]) by {
            assert(m[0] != DOT);
        }
        assert(m.subrange(d.len() + 1 as int, m.len() as int) =~= e);
    } else {
        assert(m == d);
        assert forall|j: int| -1 < j < m.len() implies m[j] != DOT by {
            assert(is_hex_char(d[j]));
        }
        lemma_last_index_at(m, DOT, -1);
    }
    assert forall|k: int| 0 <= k < d.len() implies d[k] != SLASH by {
        assert(is_hex_char(d[k]));
    }
}

/// Splitting a renamed path gives back the directory and the hashed name.
proof fn lemma_renamed_parts(p: Seq<u8>, d: Seq<u8>)
    requires
        is_hex_digest(d),
    ensures
        dir_of(renamed(p, d)) == dir_of(p),
        file_name_of(renamed(p, d)) == hashed_name(d, file_name_of(p)),
{
    let s = last_index(p, SLASH);
    lemma_last_index(p, SLASH);
    let name = file_name_of(p);
    let m = hashed_name(d, name);
    let q = renamed(p, d);
    assert forall|k: int| 0 <= k < name.len() implies name[k] != SLASH by {
        assert(name[k] == p[s + 1 + k]);
    }
    lemma_hashed_name_stable(d, name);
    assert forall|j: int| s < j < q.len() implies q[j] != SLASH by {
        assert(q[j] == m[j - s - 1]);
    }
    lemma_last_index_at(q, SLASH, s);
    assert(dir_of(q) =~= dir_of(p));
    assert(file_name_of(q) =~= m);
}

/// A renamed file stays in its directory: only its last component changes,
/// and it becomes the hashed name of the old one.
pub proof fn lemma_rename_in_same_directory(path: Seq<u8>, d: Seq<u8>)
    requires
        is_hex_digest(d),
    ensures
        dir_of(renamed(path, d)) == dir_of(path),
        file_name_of(renamed(path, d)) == hashed_name(d, file_name_of(path)),
{
    lemma_renamed_parts(path, d);
}

/// Renaming is idempotent: a file already renamed for digest `d` is renamed
/// onto itself when its digest is `d` again.
pub proof fn lemma_rename_idempotent(path: Seq<u8>, d: Seq<u8>)
    requires
        is_hex_digest(d),
    ensures
        renamed(renamed(path, d), d) == renamed(path, d),
{
    lemma_renamed_parts(path, d);
    lemma_hashed_name_stable(d, file_name_of(path));
}

/// Two files in one directory with the same extension and the same contents
/// get the same target, so the second rename replaces the first file.
pub proof fn lemma_equal_contents_collide(p1: Seq<u8>, p2: Seq<u8>, c1: Seq<u8>, c2: Seq<u8>)
    requires
        dir_of(p1) == dir_of(p2),
        extension_of(file_name_of(p1)) == extension_of(file_name_of(p2)),
        c1 == c2,
    ensures
        target_of(p1, c1) == target_of(p2, c2),
{
}

fn find_last(s: &[u8], c: u8) -> (r: Option<usize>)
    ensures
        match r {
            Some(k) => last_index(s@, c) == k,
            None => last_index(s@, c) == -1,
        },
{
    let mut i: usize = s.len();
    while i > 0
        invariant
            i <= s@.len(),
            forall|j: int| i <= j < s@.len() ==> s@[j] != c,
        decreases i,
    {
        if s[i - 1] == c {
            proof {
                lemma_last_index_at(s@, c, i - 1);
            }
            return Some(i - 1);
        }
        i = i - 1;
    }
    proof {
        lemma_last_index_at(s@, c, -1);
    }
    None
}

/// The extension of the file name `name`, as [`extension_of`] defines it.
pub fn extension(name: &[u8]) -> (r: Option<Vec<u8>>)
    ensures
        match r {
            Some(e) => extension_of(name@) == Some(e@),
            None => extension_of(name@) is None,
        },
{
    let is_parent = name.len() == 2 && name[0] == DOT && name[1] == DOT;
    proof {
        if name@.len() == 2 && name@[0] == DOT && name@[1] == DOT {
            assert(name@ =~= seq![DOT, DOT]);
        }
        lemma_last_index(name@, DOT);
    }
    match find_last(name, DOT) {
        Some(i) => {
            if is_parent || i == 0 {
                None
            } else {
                Some(slice_to_vec(slice_subrange(name, i + 1, name.len())))
            }
        },
        None => None,
    }
}

/// The new name of a file called `name` whose digest, in hex, is `digest`.
pub fn hashed_file_name(digest: &[u8], name: &[u8]) -> (r: Vec<u8>)
    ensures
        r@ == hashed_name(digest@, name@),
{
    let mut r = slice_to_vec(digest);
    match extension(name) {
        Some(e) => {
            if e.len() > 0 {
                let mut e = e;
                r.push(DOT);
                r.append(&mut e);
            }
        },
        None => {},
    }
    r
}

/// `path` with its last component replaced by the hashed name for `digest`.
pub fn renamed_path(path: &[u8], digest: &[u8]) -> (r: Vec<u8>)
    ensures
        r@ == renamed(path@, digest@),
{
    proof {
        lemma_last_index(path@, SLASH);
    }
    let start: usize = match find_last(path, SLASH) {
        Some(k) => {
            assert(k < path.len());
            k + 1
        },
        None => 0,
    };
    let mut r = slice_to_vec(slice_subrange(path, 0, start));
    let mut name = hashed_file_name(digest, slice_subrange(path, start, path.len()));
    r.append(&mut name);
    r
}

/// Where the file at `path` goes, given that its contents are `content`.
pub fn target_path(path: &[u8], content: &[u8]) -> (r: Vec<u8>)
    ensures
        r@ == target_of(path@, content@),
        dir_of(r@) == dir_of(path@),
        file_name_of(r@) == hashed_name(digest_name(content@), file_name_of(path@)),
{
    let digest = digest_hex(content);
    proof {
        lemma_renamed_parts(path@, digest@);
    }
    renamed_path(path, &digest)
}

} // verus!
