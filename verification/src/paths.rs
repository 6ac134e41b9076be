//! Byte-string paths and the operations the classifier needs: the parent
//! directory, the file name, the extension, and joining a directory with a
//! child name. A path is absolute when it starts with `/`; components are
//! separated by `/` and an extension follows the last `.` of the file name.

use vstd::prelude::*;

verus! {

/// Byte value of the path separator `/`.
pub const SLASH: u8 = 47;

/// Byte value of the extension separator `.`.
pub const DOT: u8 = 46;

/// Byte value of `~`, the home-directory shorthand.
pub const TILDE: u8 = 126;

/// Position of the last occurrence of `c` in `s`, if any.
pub open spec fn last_pos(s: Seq<u8>, c: u8) -> Option<int>
    decreases s.len(),
{
    if s.len() == 0 {
        None
    } else if s[s.len() - 1] == c {
        Some(s.len() - 1)
    } else {
        last_pos(s.drop_last(), c)
    }
}

/// `last_pos` finds an occurrence with nothing equal to `c` after it,
/// and finds none exactly when `c` does not occur.
pub proof fn lemma_last_pos(s: Seq<u8>, c: u8)
    ensures
        match last_pos(s, c) {
            Some(i) => 0 <= i < s.len() && s[i] == c && (forall|j: int|
                i < j < s.len() ==> s[j] != c),
            None => forall|j: int| 0 <= j < s.len() ==> s[j] != c,
        },
    decreases s.len(),
{
    if s.len() == 0 {
    } else if s[s.len() - 1] == c {
    } else {
        lemma_last_pos(s.drop_last(), c);
        assert(forall|j: int| 0 <= j < s.len() - 1 ==> s[j] == s.drop_last()[j]);
    }
}

/// Parent directory of a path: everything before the last `/`, or `/`
/// itself when the last `/` is the first byte. A path without `/` has no
/// parent.
pub open spec fn parent_of(p: Seq<u8>) -> Option<Seq<u8>> {
    match last_pos(p, SLASH) {
        None => None,
        Some(i) => if i == 0 {
            Some(seq![SLASH])
        } else {
            Some(p.subrange(0, i))
        },
    }
}

/// File name of a path: everything after the last `/`, or the whole path
/// when it holds no `/`.
pub open spec fn file_name_of(p: Seq<u8>) -> Seq<u8> {
    match last_pos(p, SLASH) {
        None => p,
        Some(i) => p.subrange(i + 1, p.len() as int),
    }
}

/// Extension of a file name: everything after the last `.`, absent when
/// the name holds no `.` or only a leading one (a hidden file).
pub open spec fn extension_of(name: Seq<u8>) -> Option<Seq<u8>> {
    match last_pos(name, DOT) {
        None => None,
        Some(i) => if i == 0 {
            None
        } else {
            Some(name.subrange(i + 1, name.len() as int))
        },
    }
}

/// Join a directory with a child name, inserting `/` unless the directory
/// already ends with one.
pub open spec fn join(dir: Seq<u8>, name: Seq<u8>) -> Seq<u8> {
    if dir.len() > 0 && dir[dir.len() - 1] == SLASH {
        dir + name
    } else {
        dir + seq![SLASH] + name
    }
}

/// A path with a `~/` prefix resolved against the home directory `home`;
/// any other path stands as it is.
pub open spec fn spec_expand_home(p: Seq<u8>, home: Seq<u8>) -> Seq<u8> {
    if p.len() >= 2 && p[0] == TILDE && p[1] == SLASH {
        join(home, p.subrange(2, p.len() as int))
    } else {
        p
    }
}

/// The set of paths a vector of byte strings holds.
pub open spec fn path_set_of(v: Seq<Vec<u8>>) -> Set<Seq<u8>>
    decreases v.len(),
{
    if v.len() == 0 {
        Set::empty()
    } else {
        path_set_of(v.drop_last()).insert(v.last()@)
    }
}

/// Membership in `path_set_of` is membership at some index.
pub proof fn lemma_path_set_contains(v: Seq<Vec<u8>>, p: Seq<u8>)
    ensures
        path_set_of(v).contains(p) <==> (exists|j: int| 0 <= j < v.len() && v[j]@ == p),
    decreases v.len(),
{
    if v.len() == 0 {
    } else {
        lemma_path_set_contains(v.drop_last(), p);
        if v.last()@ == p {
            assert(v[v.len() - 1]@ == p);
        } else {
            if path_set_of(v).contains(p) {
                let j = choose|j: int| 0 <= j < v.len() - 1 && v.drop_last()[j]@ == p;
                assert(v[j]@ == p);
            }
            if exists|j: int| 0 <= j < v.len() && v[j]@ == p {
                let j = choose|j: int| 0 <= j < v.len() && v[j]@ == p;
                assert(j < v.len() - 1);
                assert(v.drop_last()[j]@ == p);
            }
        }
    }
}

/// `path_set_of` only builds finite sets.
pub proof fn lemma_path_set_finite(v: Seq<Vec<u8>>)
    ensures
        path_set_of(v).finite(),
    decreases v.len(),
{
    if v.len() > 0 {
        lemma_path_set_finite(v.drop_last());
    }
}

/// Index of the last occurrence of `c` in `v`, as `last_pos` gives it.
#[verifier::loop_isolation(false)]
pub fn find_last(v: &Vec<u8>, c: u8) -> (r: Option<usize>)
    ensures
        match r {
            Some(i) => last_pos(v@, c) == Some(i as int),
            None => last_pos(v@, c) is None,
        },
{
    proof {
        lemma_last_pos(v@, c);
    }
    let mut i: usize = v.len();
    while i > 0
        invariant
            i <= v.len(),
            forall|j: int| i <= j < v@.len() ==> v@[j] != c,
        decreases i,
    {
        i = i - 1;
        if v[i] == c {
            return Some(i);
        }
    }
    None
}

/// Copy of `v[lo..hi]`.
#[verifier::loop_isolation(false)]
pub fn sub_bytes(v: &Vec<u8>, lo: usize, hi: usize) -> (r: Vec<u8>)
    requires
        lo <= hi <= v@.len(),
    ensures
        r@ == v@.subrange(lo as int, hi as int),
{
    let mut r: Vec<u8> = Vec::new();
    let mut i: usize = lo;
    while i < hi
        invariant
            lo <= i <= hi,
            r@ == v@.subrange(lo as int, i as int),
        decreases hi - i,
    {
        r.push(v[i]);
        i = i + 1;
        assert(r@ =~= v@.subrange(lo as int, i as int));
    }
    r
}

/// Copy of a whole byte string.
pub fn copy_bytes(v: &Vec<u8>) -> (r: Vec<u8>)
    ensures
        r@ == v@,
{
    let r = sub_bytes(v, 0, v.len());
    assert(r@ =~= v@);
    r
}

/// Whether two byte strings hold the same bytes.
#[verifier::loop_isolation(false)]
pub fn bytes_eq(a: &Vec<u8>, b: &Vec<u8>) -> (r: bool)
    ensures
        r == (a@ == b@),
{
    if a.len() != b.len() {
        return false;
    }
    let mut i: usize = 0;
    while i < a.len()
        invariant
            i <= a.len(),
            forall|j: int| 0 <= j < i ==> a@[j] == b@[j],
        decreases a.len() - i,
    {
        if a[i] != b[i] {
            return false;
        }
        i = i + 1;
    }
    proof {
        assert(a@ =~= b@);
    }
    true
}

/// Append a copy of `src` to `dst`.
#[verifier::loop_isolation(false)]
pub fn push_all(dst: &mut Vec<u8>, src: &Vec<u8>)
    ensures
        final(dst)@ == old(dst)@ + src@,
{
    let mut i: usize = 0;
    while i < src.len()
        invariant
            i <= src.len(),
            dst@ == old(dst)@ + src@.subrange(0, i as int),
        decreases src.len() - i,
    {
        dst.push(src[i]);
        i = i + 1;
        assert(dst@ =~= old(dst)@ + src@.subrange(0, i as int));
    }
    assert(old(dst)@ + src@.subrange(0, src@.len() as int) =~= old(dst)@ + src@);
}

/// Whether `v` holds a path equal to `p`.
#[verifier::loop_isolation(false)]
pub fn contains_path(v: &Vec<Vec<u8>>, p: &Vec<u8>) -> (r: bool)
    ensures
        r == path_set_of(v@).contains(p@),
{
    proof {
        lemma_path_set_contains(v@, p@);
    }
    let mut i: usize = 0;
    while i < v.len()
        invariant
            i <= v.len(),
            forall|j: int| 0 <= j < i ==> v@[j]@ != p@,
        decreases v.len() - i,
    {
        if bytes_eq(&v[i], p) {
            return true;
        }
        i = i + 1;
    }
    false
}

/// Add `p` to the paths `v` holds.
pub fn push_path(v: &mut Vec<Vec<u8>>, p: Vec<u8>)
    ensures
        path_set_of(final(v)@) == path_set_of(old(v)@).insert(p@),
{
    let ghost before = v@;
    v.push(p);
    proof {
        assert(v@.drop_last() =~= before);
    }
}

/// Remove every occurrence of `p` from the paths `v` holds.
#[verifier::loop_isolation(false)]
pub fn remove_path(v: &mut Vec<Vec<u8>>, p: &Vec<u8>)
    ensures
        path_set_of(final(v)@) == path_set_of(old(v)@).remove(p@),
{
    let mut kept: Vec<Vec<u8>> = Vec::new();
    let mut i: usize = 0;
    while i < v.len()
        invariant
            i <= v.len(),
            path_set_of(kept@) == path_set_of(v@.subrange(0, i as int)).remove(p@),
        decreases v.len() - i,
    {
        proof {
            assert(v@.subrange(0, i + 1).drop_last() =~= v@.subrange(0, i as int));
            assert(v@.subrange(0, i + 1).last() == v@[i as int]);
        }
        if !bytes_eq(&v[i], p) {
            let ghost kb = kept@;
            kept.push(copy_bytes(&v[i]));
            proof {
                assert(kept@.drop_last() =~= kb);
                assert(path_set_of(v@.subrange(0, i as int)).remove(p@).insert(v@[i as int]@)
                    =~= path_set_of(v@.subrange(0, i + 1)).remove(p@));
            }
        } else {
            proof {
                assert(path_set_of(v@.subrange(0, i as int)).remove(p@) =~= path_set_of(
                    v@.subrange(0, i + 1),
                ).remove(p@));
            }
        }
        i = i + 1;
    }
    proof {
        assert(v@.subrange(0, v@.len() as int) =~= v@);
    }
    *v = kept;
}

/// Parent directory of a path, as `parent_of` gives it.
pub fn parent_dir(p: &Vec<u8>) -> (r: Option<Vec<u8>>)
    ensures
        match r {
            Some(d) => parent_of(p@) == Some(d@),
            None => parent_of(p@) is None,
        },
{
    proof {
        lemma_last_pos(p@, SLASH);
    }
    match find_last(p, SLASH) {
        None => None,
        Some(i) => {
            if i == 0 {
                let mut d: Vec<u8> = Vec::new();
                d.push(SLASH);
                assert(d@ =~= seq![SLASH]);
                Some(d)
            } else {
                Some(sub_bytes(p, 0, i))
            }
        },
    }
}

/// File name of a path, as `file_name_of` gives it.
pub fn file_name(p: &Vec<u8>) -> (r: Vec<u8>)
    ensures
        r@ == file_name_of(p@),
{
    proof {
        lemma_last_pos(p@, SLASH);
    }
    match find_last(p, SLASH) {
        None => copy_bytes(p),
        Some(i) => {
            let n = p.len();
            assert(i < n);
            sub_bytes(p, i + 1, n)
        },
    }
}

/// Extension of a file name, as `extension_of` gives it.
pub fn extension(name: &Vec<u8>) -> (r: Option<Vec<u8>>)
    ensures
        match r {
            Some(e) => extension_of(name@) == Some(e@),
            None => extension_of(name@) is None,
        },
{
    proof {
        lemma_last_pos(name@, DOT);
    }
    match find_last(name, DOT) {
        None => None,
        Some(i) => {
            if i == 0 {
                None
            } else {
                let n = name.len();
                assert(i < n);
                Some(sub_bytes(name, i + 1, n))
            }
        },
    }
}

/// Resolve a `~/` prefix against the home directory, as
/// `spec_expand_home` gives it.
pub fn expand_home(p: &Vec<u8>, home: &Vec<u8>) -> (r: Vec<u8>)
    ensures
        r@ == spec_expand_home(p@, home@),
{
    if p.len() >= 2 && p[0] == TILDE && p[1] == SLASH {
        let rest = sub_bytes(p, 2, p.len());
        join_path(home, &rest)
    } else {
        copy_bytes(p)
    }
}

/// Join a directory with a child name, as `join` gives it.
pub fn join_path(dir: &Vec<u8>, name: &Vec<u8>) -> (r: Vec<u8>)
    ensures
        r@ == join(dir@, name@),
{
    let mut r: Vec<u8> = Vec::new();
    push_all(&mut r, dir);
    if dir.len() == 0 || dir[dir.len() - 1] != SLASH {
        r.push(SLASH);
        assert(r@ =~= dir@ + seq![SLASH]);
    }
    push_all(&mut r, name);
    assert(r@ =~= join(dir@, name@));
    r
}

} // verus!
