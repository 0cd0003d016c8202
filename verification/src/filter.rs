//! The extension filter: a pure predicate on the bytes of a path.

use vstd::prelude::*;

verus! {

/// The path separator, `/`.
pub const SEPARATOR: u8 = 47;

/// The byte that introduces an extension, `.`.
pub const DOT: u8 = 46;

/// The ASCII lower-case form of a byte; bytes outside `A..=Z` are unchanged.
pub open spec fn ascii_lower(b: u8) -> u8 {
    if 65 <= b && b <= 90 {
        (b + 32) as u8
    } else {
        b
    }
}

/// Whether two byte strings are equal when ASCII letters are compared
/// without regard to case.
pub open spec fn eq_ignore_ascii_case(a: Seq<u8>, b: Seq<u8>) -> bool {
    &&& a.len() == b.len()
    &&& forall|i: int| 0 <= i < a.len() ==> ascii_lower(#[trigger] a[i]) == ascii_lower(b[i])
}

/// Whether the file name at the end of `path` carries the extension `ext`:
/// the path ends in a dot followed by `ext` in any ASCII case, and that dot
/// is not the first byte of the file name.
pub open spec fn has_extension_spec(path: Seq<u8>, ext: Seq<u8>) -> bool {
    let n = path.len() as int;
    let k = ext.len() as int;
    &&& n >= k + 2
    &&& path[n - k - 2] != SEPARATOR
    &&& path[n - k - 1] == DOT
    &&& eq_ignore_ascii_case(path.subrange(n - k, n), ext)
}

/// The extension that the scanner looks for, `rar`.
pub open spec fn rar() -> Seq<u8> {
    seq![114u8, 97u8, 114u8]
}

/// Whether `path` names a file with the extension `rar`, in any ASCII case.
pub open spec fn is_rar_path(path: Seq<u8>) -> bool {
    has_extension_spec(path, rar())
}

/// Lower-cases one ASCII byte.
pub fn to_ascii_lower(b: u8) -> (r: u8)
    ensures
        r == ascii_lower(b),
{
    if 65 <= b && b <= 90 {
        b + 32
    } else {
        b
    }
}

/// Tests whether `path` ends in `.` and `ext`, compared without regard to
/// ASCII case, with at least one byte of file name before the dot.
pub fn has_extension(path: &[u8], ext: &[u8]) -> (r: bool)
    ensures
        r == has_extension_spec(path@, ext@),
{
    let n: usize = path.len();
    let k: usize = ext.len();
    if n < 2 || n - 2 < k {
        return false;
    }
    let start: usize = n - k;
    if path[start - 2] == SEPARATOR || path[start - 1] != DOT {
        return false;
    }
    let ghost tail = path@.subrange(start as int, n as int);
    let mut i: usize = 0;
    while i < k
        invariant
            0 <= i <= k,
            n == path.len(),
            k == ext.len(),
            start + k == n,
            tail == path@.subrange(start as int, n as int),
            forall|j: int| 0 <= j < i ==> ascii_lower(#[trigger] tail[j]) == ascii_lower(ext@[j]),
        decreases k - i,
    {
        if to_ascii_lower(path[start + i]) != to_ascii_lower(ext[i]) {
            assert(tail[i as int] == path@[start + i]);
            return false;
        }
        assert(tail[i as int] == path@[start + i]);
        i += 1;
    }
    true
}

/// The extension filter of the scanner: whether `path` qualifies as a `.rar`
/// file by its name alone. The path is read as it stands: one that ends in a
/// separator, such as `a.rar/`, has an empty file name and does not qualify.
/// A walker never reports a file under such a path.
pub fn has_rar_extension(path: &[u8]) -> (r: bool)
    ensures
        r == is_rar_path(path@),
{
    let ext: [u8; 3] = [114u8, 97u8, 114u8];
    assert(ext@ =~= rar());
    has_extension(path, ext.as_slice())
}

/// The filter is blind to the case of the extension's letters: two paths
/// that agree but for the ASCII case of their last `ext.len()` bytes are
/// accepted alike.
pub proof fn lemma_extension_ignores_case(p: Seq<u8>, q: Seq<u8>, ext: Seq<u8>)
    requires
        p.len() == q.len(),
        forall|i: int| 0 <= i < p.len() - ext.len() ==> p[i] == q[i],
        forall|i: int|
            0 <= i < p.len() && p.len() - ext.len() <= i ==> ascii_lower(p[i]) == ascii_lower(
                q[i],
            ),
    ensures
        has_extension_spec(p, ext) == has_extension_spec(q, ext),
{
    let n = p.len() as int;
    let k = ext.len() as int;
    if n >= k + 2 {
        let pt = p.subrange(n - k, n);
        let qt = q.subrange(n - k, n);
        assert forall|i: int| 0 <= i < k implies ascii_lower(#[trigger] pt[i]) == ascii_lower(
            qt[i],
        ) by {
            assert(pt[i] == p[n - k + i]);
            assert(qt[i] == q[n - k + i]);
        }
        if eq_ignore_ascii_case(pt, ext) {
            assert forall|i: int| 0 <= i < k implies ascii_lower(#[trigger] qt[i]) == ascii_lower(
                ext[i],
            ) by {
                assert(ascii_lower(pt[i]) == ascii_lower(ext[i]));
            }
        }
        if eq_ignore_ascii_case(qt, ext) {
            assert forall|i: int| 0 <= i < k implies ascii_lower(#[trigger] pt[i]) == ascii_lower(
                ext[i],
            ) by {
                assert(ascii_lower(qt[i]) == ascii_lower(ext[i]));
            }
        }
    }
}

/// A path with anything behind the extension does not pass: where the last
/// four bytes are not a dot and `rar` in some case, the path is not a
/// `rar` path.
pub proof fn lemma_rar_is_a_suffix(p: Seq<u8>)
    ensures
        is_rar_path(p) <==> {
            &&& p.len() >= 5
            &&& p[p.len() - 5] != SEPARATOR
            &&& p[p.len() - 4] == DOT
            &&& ascii_lower(p[p.len() - 3]) == 114
            &&& ascii_lower(p[p.len() - 2]) == 97
            &&& ascii_lower(p[p.len() - 1]) == 114
        },
{
    let n = p.len() as int;
    if n >= 5 {
        let t = p.subrange(n - 3, n);
        assert(t[0] == p[n - 3] && t[1] == p[n - 2] && t[2] == p[n - 1]);
        assert(rar()[0] == 114 && rar()[1] == 97 && rar()[2] == 114);
        assert(rar().len() == 3);
        if eq_ignore_ascii_case(t, rar()) {
            assert(ascii_lower(t[0]) == ascii_lower(rar()[0]));
            assert(ascii_lower(t[1]) == ascii_lower(rar()[1]));
            assert(ascii_lower(t[2]) == ascii_lower(rar()[2]));
        }
    }
}

/// Where the file name of a path starts: behind its last separator, or at
/// the front where it has none.
pub open spec fn name_start(path: Seq<u8>) -> int
    decreases path.len(),
{
    if path.len() == 0 {
        0
    } else if path.last() == SEPARATOR {
        path.len() as int
    } else {
        name_start(path.drop_last())
    }
}

/// The file name of a path: what stands behind its last separator.
pub open spec fn file_name(path: Seq<u8>) -> Seq<u8> {
    path.subrange(name_start(path), path.len() as int)
}

/// The place of the last dot of a name, if it has a dot.
pub open spec fn last_dot(name: Seq<u8>) -> Option<int>
    decreases name.len(),
{
    if name.len() == 0 {
        None
    } else if name.last() == DOT {
        Some(name.len() - 1)
    } else {
        last_dot(name.drop_last())
    }
}

/// The extension of a path: what stands behind the last dot of its file
/// name. A name without a dot has none, nor has a name whose only dot is its
/// first byte.
pub open spec fn extension_of(path: Seq<u8>) -> Option<Seq<u8>> {
    let name = file_name(path);
    match last_dot(name) {
        Some(d) => if d > 0 {
            Some(name.subrange(d + 1, name.len() as int))
        } else {
            None
        },
        None => None,
    }
}

/// Whether a byte string holds neither a dot nor a separator, as an
/// extension does.
pub open spec fn plain(ext: Seq<u8>) -> bool {
    forall|i: int| 0 <= i < ext.len() ==> #[trigger] ext[i] != DOT && ext[i] != SEPARATOR
}

proof fn lemma_name_start(path: Seq<u8>)
    ensures
        0 <= name_start(path) <= path.len(),
        name_start(path) > 0 ==> path[name_start(path) - 1] == SEPARATOR,
        forall|i: int| name_start(path) <= i < path.len() ==> #[trigger] path[i] != SEPARATOR,
    decreases path.len(),
{
    if path.len() > 0 && path.last() != SEPARATOR {
        let rest = path.drop_last();
        lemma_name_start(rest);
        assert forall|i: int| name_start(path) <= i < path.len() implies #[trigger] path[i]
            != SEPARATOR by {
            if i < rest.len() {
                assert(path[i] == rest[i]);
            }
        }
        if name_start(path) > 0 {
            assert(path[name_start(path) - 1] == rest[name_start(rest) - 1]);
        }
    }
}

proof fn lemma_last_dot(name: Seq<u8>)
    ensures
        match last_dot(name) {
            Some(d) => 0 <= d < name.len() && name[d] == DOT && forall|i: int|
                d < i < name.len() ==> #[trigger] name[i] != DOT,
            None => forall|i: int| 0 <= i < name.len() ==> #[trigger] name[i] != DOT,
        },
    decreases name.len(),
{
    if name.len() > 0 && name.last() != DOT {
        let rest = name.drop_last();
        lemma_last_dot(rest);
        match last_dot(rest) {
            Some(d) => {
                assert(name[d] == rest[d]);
                assert forall|i: int| d < i < name.len() implies #[trigger] name[i] != DOT by {
                    if i < rest.len() {
                        assert(name[i] == rest[i]);
                    }
                }
            },
            None => {
                assert forall|i: int| 0 <= i < name.len() implies #[trigger] name[i] != DOT by {
                    if i < rest.len() {
                        assert(name[i] == rest[i]);
                    }
                }
            },
        }
    }
}

/// The filter accepts a path exactly when the extension of its file name is
/// the wanted one, in any ASCII case.
pub proof fn lemma_filter_reads_the_extension(path: Seq<u8>, ext: Seq<u8>)
    requires
        plain(ext),
    ensures
        has_extension_spec(path, ext) <==> (extension_of(path) matches Some(e)
            && eq_ignore_ascii_case(e, ext)),
{
    let n = path.len() as int;
    let k = ext.len() as int;
    let s = name_start(path);
    let name = file_name(path);
    lemma_name_start(path);
    lemma_last_dot(name);
    if has_extension_spec(path, ext) {
        let tail = path.subrange(n - k, n);
        assert forall|i: int| n - k <= i < n implies path[i] != DOT && path[i] != SEPARATOR by {
            assert(tail[i - (n - k)] == path[i]);
            assert(ascii_lower(tail[i - (n - k)]) == ascii_lower(ext[i - (n - k)]));
            assert(ext[i - (n - k)] != DOT && ext[i - (n - k)] != SEPARATOR);
        }
        assert(path[n - k - 1] != SEPARATOR);
        assert(s <= n - k - 2) by {
            if s > n - k - 2 {
                assert(path[s - 1] == SEPARATOR);
            }
        }
        let at = n - k - 1 - s;
        assert(name[at] == path[n - k - 1]);
        match last_dot(name) {
            Some(d) => {
                if d > at {
                    assert(name[d] == path[s + d]);
                }
                if d < at {
                    assert(name[at] != DOT);
                }
                assert(name.subrange(d + 1, name.len() as int) =~= tail);
            },
            None => {
                assert(name[at] != DOT);
            },
        }
    }
    if extension_of(path) matches Some(e) && eq_ignore_ascii_case(e, ext) {
        let d = last_dot(name).unwrap();
        let e = name.subrange(d + 1, name.len() as int);
        assert(e.len() == k);
        assert(name[d] == path[s + d]);
        assert(name[d - 1] == path[s + d - 1]);
        assert(path.subrange(n - k, n) =~= e);
    }
}

/// A path passes the scanner's filter exactly when the extension of its
/// file name is `rar` in any ASCII case.
pub proof fn lemma_rar_reads_the_extension(path: Seq<u8>)
    ensures
        is_rar_path(path) <==> (extension_of(path) matches Some(e) && eq_ignore_ascii_case(
            e,
            rar(),
        )),
{
    assert(plain(rar()));
    lemma_filter_reads_the_extension(path, rar());
}

} // verus!
