//! Paths as byte strings, with the final component and the extension read
//! from them as `std::path::Path` reads a Unix path.
use vstd::prelude::*;

verus! {

/// The path separator, `/`.
pub const SEPARATOR: u8 = 0x2F;

/// The byte that starts an extension, `.`.
pub const DOT: u8 = 0x2E;

/// End of the final component within `p[..k]`: trailing separators and
/// trailing `.` components (`a/.`) are not part of it.
pub open spec fn name_end(p: Seq<u8>, k: int) -> int
    decreases k,
{
    if k <= 0 {
        0
    } else if p[k - 1] == SEPARATOR {
        name_end(p, k - 1)
    } else if k >= 2 && p[k - 1] == DOT && p[k - 2] == SEPARATOR {
        name_end(p, k - 2)
    } else {
        k
    }
}

/// Start of the component that ends at `k`: just past the last separator
/// before `k`, or 0.
pub open spec fn name_start(p: Seq<u8>, k: int) -> int
    decreases k,
{
    if k <= 0 {
        0
    } else if p[k - 1] == SEPARATOR {
        k
    } else {
        name_start(p, k - 1)
    }
}

/// The final component of a path, if it names a file: not empty, `.` or `..`.
pub open spec fn file_name(p: Seq<u8>) -> Option<Seq<u8>> {
    let e = name_end(p, p.len() as int);
    let n = p.subrange(name_start(p, e), e);
    if n.len() == 0 || n == seq![DOT] || n == seq![DOT, DOT] {
        None
    } else {
        Some(n)
    }
}

/// Index of the last `.` in `n[..k]`, or -1 if there is none.
pub open spec fn last_dot(n: Seq<u8>, k: int) -> int
    decreases k,
{
    if k <= 0 {
        -1
    } else if n[k - 1] == DOT {
        k - 1
    } else {
        last_dot(n, k - 1)
    }
}

/// The extension of a file name: what follows its last `.`. A name with no
/// `.` has none; a name whose only `.` is its first byte (`.m3u`) has one.
pub open spec fn name_extension(n: Seq<u8>) -> Option<Seq<u8>> {
    let d = last_dot(n, n.len() as int);
    if d < 0 {
        None
    } else {
        Some(n.subrange(d + 1, n.len() as int))
    }
}

/// The extension of a path: that of its file name, if it has one.
pub open spec fn extension(p: Seq<u8>) -> Option<Seq<u8>> {
    match file_name(p) {
        Some(n) => name_extension(n),
        None => None,
    }
}

/// Whether a byte string holds no `.`.
pub open spec fn dotless(n: Seq<u8>) -> bool {
    forall|i: int| 0 <= i < n.len() ==> n[i] != DOT
}

/// `last_dot` finds the last `.` before `k`, and there is none after it.
pub proof fn lemma_last_dot(n: Seq<u8>, k: int)
    requires
        0 <= k <= n.len(),
    ensures
        -1 <= last_dot(n, k) < k,
        last_dot(n, k) >= 0 ==> n[last_dot(n, k)] == DOT,
        forall|m: int| last_dot(n, k) < m < k ==> n[m] != DOT,
    decreases k,
{
    if k > 0 && n[k - 1] != DOT {
        lemma_last_dot(n, k - 1);
    }
}

/// An extension is what follows the last `.` of the file name: the name
/// ends in `.` and the extension, and the extension holds no `.`.
pub proof fn lemma_extension_is_name_suffix(p: Seq<u8>)
    requires
        extension(p) is Some,
    ensures
        file_name(p) is Some,
        ({
            let n = file_name(p)->Some_0;
            let x = extension(p)->Some_0;
            &&& n.len() >= x.len() + 1
            &&& n.subrange(n.len() - x.len() - 1, n.len() as int) == seq![DOT] + x
            &&& dotless(x)
        }),
{
    let n = file_name(p)->Some_0;
    lemma_last_dot(n, n.len() as int);
    let d = last_dot(n, n.len() as int);
    let x = n.subrange(d + 1, n.len() as int);
    assert(n.subrange(n.len() - x.len() - 1, n.len() as int) =~= seq![DOT] + x);
}

/// A file name with no `.` gives no extension.
pub proof fn lemma_dotless_name_has_no_extension(p: Seq<u8>)
    requires
        file_name(p) is Some,
        dotless(file_name(p)->Some_0),
    ensures
        extension(p) is None,
{
    let n = file_name(p)->Some_0;
    lemma_last_dot(n, n.len() as int);
}

/// Whether the extension of `path` is exactly `ext`, byte for byte.
pub fn has_extension(path: &[u8], ext: &[u8]) -> (r: bool)
    ensures
        r == (extension(path@) == Some(ext@)),
{
    let ghost p = path@;
    // Drop trailing separators and `.` components: the file name ends at `e`.
    let mut e: usize = path.len();
    while e > 0 && (path[e - 1] == SEPARATOR || (e >= 2 && path[e - 1] == DOT && path[e - 2]
        == SEPARATOR))
        invariant
            e <= p.len(),
            p == path@,
            name_end(p, e as int) == name_end(p, p.len() as int),
        decreases e,
    {
        if path[e - 1] == SEPARATOR {
            e -= 1;
        } else {
            e -= 2;
        }
    }
    // The file name starts just past the separator before it.
    let mut s: usize = e;
    while s > 0 && path[s - 1] != SEPARATOR
        invariant
            s <= e <= p.len(),
            p == path@,
            name_start(p, s as int) == name_start(p, e as int),
        decreases s,
    {
        s -= 1;
    }
    let ghost n = p.subrange(s as int, e as int);
    assert(file_name(p) == if n.len() == 0 || n == seq![DOT] || n == seq![DOT, DOT] {
        None::<Seq<u8>>
    } else {
        Some(n)
    });
    if e - s == 0 {
        return false;
    }
    if e - s == 1 && path[s] == DOT {
        assert(n =~= seq![DOT]);
        return false;
    }
    if e - s == 2 && path[s] == DOT && path[s + 1] == DOT {
        assert(n =~= seq![DOT, DOT]);
        return false;
    }
    assert(n != seq![DOT]) by {
        if n.len() == 1 {
            assert(n[0] == path@[s as int]);
        }
    }
    assert(n != seq![DOT, DOT]) by {
        if n.len() == 2 {
            assert(n[0] == path@[s as int]);
            assert(n[1] == path@[s + 1]);
        }
    }
    assert(file_name(p) == Some(n));
    // The extension starts just past the last `.` of the name.
    let mut k: usize = e;
    while k > s && path[k - 1] != DOT
        invariant
            s <= k <= e <= p.len(),
            p == path@,
            n == p.subrange(s as int, e as int),
            last_dot(n, k - s) == last_dot(n, n.len() as int),
        decreases k,
    {
        assert(n[k - s - 1] == p[k - 1]);
        k -= 1;
    }
    if k <= s {
        return false;
    }
    assert(n[k - s - 1] == p[k - 1]);
    let ghost x = n.subrange(k - s, n.len() as int);
    assert(extension(p) == Some(x));
    if e - k != ext.len() {
        assert(x.len() != ext@.len());
        return false;
    }
    // Compare it with `ext`, byte for byte.
    let mut i: usize = 0;
    while i < ext.len()
        invariant
            k + ext@.len() == e <= p.len(),
            p == path@,
            x == n.subrange(k - s, n.len() as int),
            extension(p) == Some(x),
            n == p.subrange(s as int, e as int),
            s < k,
            i <= ext@.len(),
            forall|j: int| 0 <= j < i ==> x[j] == ext@[j],
        decreases ext@.len() - i,
    {
        assert(x[i as int] == p[k + i]);
        if path[k + i] != ext[i] {
            assert(x[i as int] != ext@[i as int]);
            return false;
        }
        i += 1;
    }
    assert(x =~= ext@);
    true
}

} // verus!
