//! Path normalisation and resolution against the in-memory filesystem.

use vstd::prelude::*;
use crate::abi::{EINVAL, ENODEV, ENOENT, ENOTDIR};
use crate::vfs::ramfs::RamFs;

verus! {

/// The slash byte.
pub const SLASH: u8 = 0x2f;
/// The dot byte.
pub const DOT: u8 = 0x2e;

/// Applies one path component to the stack of resolved components: empty
/// and `.` components are skipped, `..` drops the last one, anything else is
/// pushed.
pub open spec fn push_component(stack: Seq<Seq<u8>>, part: Seq<u8>) -> Seq<Seq<u8>> {
    if part.len() == 0 || part == seq![DOT] {
        stack
    } else if part == seq![DOT, DOT] {
        if stack.len() > 0 { stack.drop_last() } else { stack }
    } else {
        stack.push(part)
    }
}

/// Scans `s` byte by byte: the resolved components of the completed parts
/// and the part being read.
pub open spec fn scan_path(s: Seq<u8>) -> (Seq<Seq<u8>>, Seq<u8>)
    decreases s.len(),
{
    if s.len() == 0 {
        (Seq::empty(), Seq::empty())
    } else {
        let (stack, cur) = scan_path(s.drop_last());
        if s.last() == SLASH {
            (push_component(stack, cur), Seq::empty())
        } else {
            (stack, cur.push(s.last()))
        }
    }
}

/// The components of `s` once `.` and `..` are resolved.
pub open spec fn path_components(s: Seq<u8>) -> Seq<Seq<u8>> {
    let (stack, cur) = scan_path(s);
    push_component(stack, cur)
}

/// The path `cwd` and `path` denote together, before normalisation.
pub open spec fn joined_path(cwd: Seq<u8>, path: Seq<u8>) -> Seq<u8> {
    if path.len() > 0 && path[0] == SLASH {
        path
    } else if cwd == seq![SLASH] {
        seq![SLASH] + path
    } else {
        cwd + seq![SLASH] + path
    }
}

/// `/c1/c2/.../cn` for the components `c`.
pub open spec fn join_components(c: Seq<Seq<u8>>) -> Seq<u8>
    decreases c.len(),
{
    if c.len() == 0 {
        Seq::empty()
    } else {
        join_components(c.drop_last()) + seq![SLASH] + c.last()
    }
}

/// The normalised absolute path: `/` when no component is left.
pub open spec fn spec_normalize(cwd: Seq<u8>, path: Seq<u8>) -> Seq<u8> {
    let c = path_components(joined_path(cwd, path));
    if c.len() == 0 { seq![SLASH] } else { join_components(c) }
}

/// The views of a vector of byte vectors.
pub open spec fn views(v: Seq<Vec<u8>>) -> Seq<Seq<u8>> {
    v.map_values(|x: Vec<u8>| x@)
}

fn is_dot(part: &Vec<u8>) -> (r: bool)
    ensures
        r == (part@ == seq![DOT]),
{
    let r = part.len() == 1 && part[0] == DOT;
    proof {
        if part@.len() == 1 && part@[0] == DOT {
            assert(part@ =~= seq![DOT]);
        }
    }
    r
}

fn is_dot_dot(part: &Vec<u8>) -> (r: bool)
    ensures
        r == (part@ == seq![DOT, DOT]),
{
    let r = part.len() == 2 && part[0] == DOT && part[1] == DOT;
    proof {
        if part@.len() == 2 && part@[0] == DOT && part@[1] == DOT {
            assert(part@ =~= seq![DOT, DOT]);
        }
    }
    r
}

fn apply_component(stack: &mut Vec<Vec<u8>>, part: Vec<u8>)
    ensures
        views(final(stack)@) == push_component(views(old(stack)@), part@),
{
    if part.len() == 0 || is_dot(&part) {
    } else if is_dot_dot(&part) {
        let ghost s0 = stack@;
        if stack.len() > 0 {
            stack.pop();
            proof {
                assert(views(stack@) =~= views(s0).drop_last());
            }
        }
    } else {
        let ghost s0 = stack@;
        stack.push(part);
        proof {
            assert(views(stack@) =~= views(s0).push(part@));
        }
    }
}

/// The components of `s` once `.` and `..` are resolved.
pub fn components(s: &Vec<u8>) -> (r: Vec<Vec<u8>>)
    ensures
        views(r@) == path_components(s@),
{
    let mut stack: Vec<Vec<u8>> = Vec::new();
    let mut cur: Vec<u8> = Vec::new();
    let n = s.len();
    let mut i: usize = 0;
    while i < n
        invariant
            n == s@.len(),
            0 <= i <= n,
            scan_path(s@.take(i as int)) == (views(stack@), cur@),
        decreases n - i,
    {
        proof {
            assert(s@.take(i as int + 1).drop_last() =~= s@.take(i as int));
            assert(s@.take(i as int + 1).last() == s@[i as int]);
        }
        let b = s[i];
        if b == SLASH {
            let part = cur;
            cur = Vec::new();
            apply_component(&mut stack, part);
        } else {
            cur.push(b);
        }
        i += 1;
    }
    proof {
        assert(s@.take(n as int) =~= s@);
    }
    apply_component(&mut stack, cur);
    stack
}

/// `/c1/c2/.../cn` for the components `c`, or `/` when there are none.
pub fn join_path(c: &Vec<Vec<u8>>) -> (r: Vec<u8>)
    ensures
        r@ == (if c@.len() == 0 { seq![SLASH] } else { join_components(views(c@)) }),
{
    if c.len() == 0 {
        let mut r = Vec::new();
        r.push(SLASH);
        proof {
            assert(r@ =~= seq![SLASH]);
        }
        return r;
    }
    let mut r: Vec<u8> = Vec::new();
    let n = c.len();
    let mut i: usize = 0;
    while i < n
        invariant
            n == c@.len(),
            0 <= i <= n,
            r@ == join_components(views(c@.take(i as int))),
        decreases n - i,
    {
        proof {
            assert(views(c@.take(i as int + 1)).drop_last() =~= views(c@.take(i as int)));
            assert(views(c@.take(i as int + 1)).last() == c@[i as int]@);
        }
        let ghost r0 = r@;
        r.push(SLASH);
        let part = &c[i];
        let m = part.len();
        let mut k: usize = 0;
        while k < m
            invariant
                m == part@.len(),
                0 <= k <= m,
                r@ == r0 + seq![SLASH] + part@.take(k as int),
            decreases m - k,
        {
            r.push(part[k]);
            proof {
                assert(part@.take(k as int + 1) =~= part@.take(k as int).push(part@[k as int]));
            }
            k += 1;
        }
        proof {
            assert(part@.take(m as int) =~= part@);
        }
        i += 1;
    }
    proof {
        assert(c@.take(n as int) =~= c@);
    }
    r
}

/// Concatenates `cwd` and `path` as the kernel joins a relative path.
pub fn join_with_cwd(cwd: &Vec<u8>, path: &Vec<u8>) -> (r: Vec<u8>)
    ensures
        r@ == joined_path(cwd@, path@),
{
    let mut r: Vec<u8> = Vec::new();
    if path.len() > 0 && path[0] == SLASH {
        append_bytes(&mut r, path);
        return r;
    }
    let cwd_is_root = cwd.len() == 1 && cwd[0] == SLASH;
    proof {
        if cwd@.len() == 1 && cwd@[0] == SLASH {
            assert(cwd@ =~= seq![SLASH]);
        }
    }
    if cwd_is_root {
        r.push(SLASH);
        append_bytes(&mut r, path);
        proof {
            assert(r@ =~= seq![SLASH] + path@);
        }
    } else {
        append_bytes(&mut r, cwd);
        r.push(SLASH);
        append_bytes(&mut r, path);
        proof {
            assert(r@ =~= cwd@ + seq![SLASH] + path@);
        }
    }
    r
}

/// Appends the bytes of `b` to `r`.
pub fn append_bytes(r: &mut Vec<u8>, b: &Vec<u8>)
    ensures
        final(r)@ == old(r)@ + b@,
{
    let ghost r0 = r@;
    let n = b.len();
    let mut i: usize = 0;
    while i < n
        invariant
            n == b@.len(),
            0 <= i <= n,
            r@ == r0 + b@.take(i as int),
        decreases n - i,
    {
        r.push(b[i]);
        proof {
            assert(b@.take(i as int + 1) =~= b@.take(i as int).push(b@[i as int]));
        }
        i += 1;
    }
    proof {
        assert(b@.take(n as int) =~= b@);
    }
}

/// Normalises `path` against the working directory `cwd`, resolving `.`
/// and `..`; the result is absolute.
pub fn normalize_path(cwd: &Vec<u8>, path: &Vec<u8>) -> (r: Vec<u8>)
    ensures
        r@ == spec_normalize(cwd@, path@),
{
    let full = join_with_cwd(cwd, path);
    let c = components(&full);
    join_path(&c)
}

/// Walks `comps` from directory `cur`, looking each component up.
pub open spec fn spec_walk(fs: RamFs, cur: int, comps: Seq<Seq<u8>>) -> Result<usize, i32>
    decreases comps.len(),
{
    if comps.len() == 0 {
        Ok(cur as usize)
    } else {
        let parent = spec_walk(fs, cur, comps.drop_last());
        match parent {
            Err(e) => Err(e),
            Ok(p) => if !fs.is_dir(p as int) {
                Err(ENOTDIR)
            } else if !fs.dir(p as int).contains_key(comps.last()) {
                Err(ENOENT)
            } else {
                Ok(fs.dir(p as int)[comps.last()])
            },
        }
    }
}

fn walk(fs: &RamFs, start: usize, comps: &Vec<Vec<u8>>, upto: usize) -> (r: Result<usize, i32>)
    requires
        fs.wf(),
        start < fs.count(),
        upto <= comps@.len(),
    ensures
        r == spec_walk(*fs, start as int, views(comps@).take(upto as int)),
        r matches Ok(i) ==> i < fs.count(),
{
    let mut cur = start;
    let mut i: usize = 0;
    while i < upto
        invariant
            fs.wf(),
            upto <= comps@.len(),
            0 <= i <= upto,
            cur < fs.count(),
            spec_walk(*fs, start as int, views(comps@).take(i as int)) == Ok::<usize, i32>(cur),
        decreases upto - i,
    {
        proof {
            assert(views(comps@).take(i as int + 1).drop_last() =~= views(comps@).take(i as int));
            assert(views(comps@).take(i as int + 1).last() == comps@[i as int]@);
        }
        match fs.lookup(cur, &comps[i]) {
            Ok(next) => {
                cur = next;
            },
            Err(e) => {
                proof {
                    assert(spec_walk(*fs, start as int, views(comps@).take(i as int + 1)) == Err::<usize, i32>(e));
                    lemma_walk_err_prefix(*fs, start as int, views(comps@), i as int + 1, upto as int);
                }
                return Err(e);
            },
        }
        i += 1;
    }
    Ok(cur)
}

/// Once a prefix of the walk fails, every longer prefix fails the same way.
proof fn lemma_walk_err_prefix(fs: RamFs, start: int, c: Seq<Seq<u8>>, k: int, m: int)
    requires
        0 <= k <= m <= c.len(),
        spec_walk(fs, start, c.take(k)) is Err,
    ensures
        spec_walk(fs, start, c.take(m)) == spec_walk(fs, start, c.take(k)),
    decreases m - k,
{
    if m > k {
        lemma_walk_err_prefix(fs, start, c, k, m - 1);
        assert(c.take(m).drop_last() =~= c.take(m - 1));
    }
}

/// A walk fails only because a component is missing or is not a directory.
pub proof fn lemma_walk_errors(fs: RamFs, cur: int, comps: Seq<Seq<u8>>)
    ensures
        spec_walk(fs, cur, comps) matches Err(e) ==> e == ENOTDIR || e == ENOENT,
    decreases comps.len(),
{
    if comps.len() > 0 {
        lemma_walk_errors(fs, cur, comps.drop_last());
    }
}

/// A walk that succeeds keeps its result when directory `p` gains a name
/// `b` it did not have (and no other directory changes).
pub proof fn lemma_walk_after_insert(fs1: RamFs, fs2: RamFs, p: int, b: Seq<u8>, n: usize, cur: int, comps: Seq<Seq<u8>>)
    requires
        fs1.is_dir(p),
        !fs1.dir(p).contains_key(b),
        fs2.count() >= fs1.count(),
        forall|i: int| 0 <= i < fs1.count() ==> #[trigger] fs2.kind(i) == fs1.kind(i),
        forall|i: int| 0 <= i < fs1.count() && i != p ==> #[trigger] fs2.dir(i) == fs1.dir(i),
        fs2.dir(p) == fs1.dir(p).insert(b, n),
        spec_walk(fs1, cur, comps) is Ok,
    ensures
        spec_walk(fs2, cur, comps) == spec_walk(fs1, cur, comps),
    decreases comps.len(),
{
    if comps.len() > 0 {
        let pre = comps.drop_last();
        assert(spec_walk(fs1, cur, pre) is Ok);
        lemma_walk_after_insert(fs1, fs2, p, b, n, cur, pre);
        let q = spec_walk(fs1, cur, pre).unwrap() as int;
        assert(fs1.is_dir(q));
        assert(fs2.is_dir(q));
        if q == p {
            assert(comps.last() != b);
        }
    }
}

/// Once directory `p` holds `b` as `n` (having lacked it), the path whose
/// parent resolved to `p` and whose last component is `b` resolves to `n`.
pub proof fn lemma_resolve_after_insert(fs1: RamFs, fs2: RamFs, root: Option<usize>, cwd: Seq<u8>, path: Seq<u8>, n: usize)
    requires
        spec_resolve_parent(fs1, root, cwd, path) matches Ok((p, b)) && fs1.is_dir(p as int) && !fs1.dir(p as int).contains_key(b)
            && fs2.dir(p as int) == fs1.dir(p as int).insert(b, n)
            && forall|i: int| 0 <= i < fs1.count() && i != p ==> #[trigger] fs2.dir(i) == fs1.dir(i),
        fs2.count() >= fs1.count(),
        forall|i: int| 0 <= i < fs1.count() ==> #[trigger] fs2.kind(i) == fs1.kind(i),
    ensures
        spec_resolve(fs2, root, cwd, path) == Ok::<usize, i32>(n),
{
    let c = path_components(joined_path(cwd, path));
    let (p, b) = spec_resolve_parent(fs1, root, cwd, path).unwrap();
    let r = root.unwrap() as int;
    assert(c.len() > 0);
    lemma_walk_after_insert(fs1, fs2, p as int, b, n, r, c.drop_last());
    assert(fs2.is_dir(p as int));
}

/// The walk of the first `upto` components of `comps` from `start` is at
/// inode `target` at some step (the start included).
pub open spec fn passes_through(fs: RamFs, start: int, comps: Seq<Seq<u8>>, upto: int, target: usize) -> bool {
    exists|k: int| 0 <= k <= upto && #[trigger] spec_walk(fs, start, comps.take(k)) == Ok::<usize, i32>(target)
}

fn walk_passes(fs: &RamFs, start: usize, comps: &Vec<Vec<u8>>, upto: usize, target: usize) -> (r: bool)
    requires
        fs.wf(),
        start < fs.count(),
        upto <= comps@.len(),
    ensures
        r == passes_through(*fs, start as int, views(comps@), upto as int, target),
{
    let ghost c = views(comps@);
    let mut cur = start;
    let mut i: usize = 0;
    proof {
        assert(c.take(0) =~= Seq::<Seq<u8>>::empty());
    }
    loop
        invariant
            fs.wf(),
            upto <= comps@.len(),
            c == views(comps@),
            0 <= i <= upto,
            cur < fs.count(),
            spec_walk(*fs, start as int, c.take(i as int)) == Ok::<usize, i32>(cur),
            forall|k: int| 0 <= k < i ==> #[trigger] spec_walk(*fs, start as int, c.take(k)) != Ok::<usize, i32>(target),
        decreases upto - i,
    {
        if cur == target {
            return true;
        }
        if i == upto {
            return false;
        }
        proof {
            assert(c.take(i as int + 1).drop_last() =~= c.take(i as int));
            assert(c.take(i as int + 1).last() == comps@[i as int]@);
        }
        match fs.lookup(cur, &comps[i]) {
            Ok(next) => {
                cur = next;
            },
            Err(e) => {
                proof {
                    assert forall|k: int| 0 <= k <= upto implies #[trigger] spec_walk(*fs, start as int, c.take(k)) != Ok::<usize, i32>(target) by {
                        if k > i {
                            lemma_walk_err_prefix(*fs, start as int, c, i as int + 1, k);
                        }
                    }
                }
                return false;
            },
        }
        i += 1;
    }
}

/// Whether resolving the parent of `path` from `cwd` passes through inode
/// `target`, or ends at it.
pub open spec fn parent_walk_passes(fs: RamFs, root: Option<usize>, cwd: Seq<u8>, path: Seq<u8>, target: usize) -> bool {
    let c = path_components(joined_path(cwd, path));
    root matches Some(r) && c.len() > 0 && passes_through(fs, r as int, c, c.len() - 1, target)
}

/// Whether the walk to the parent of `path` (from `cwd`) meets inode
/// `target`, the root and the parent included.
pub fn path_parent_passes(fs: &RamFs, root: Option<usize>, cwd: &Vec<u8>, path: &Vec<u8>, target: usize) -> (r: bool)
    requires
        fs.wf(),
        root matches Some(rt) ==> rt < fs.count(),
    ensures
        r == parent_walk_passes(*fs, root, cwd@, path@, target),
{
    let full = join_with_cwd(cwd, path);
    let comps = components(&full);
    if comps.len() == 0 {
        return false;
    }
    let rt = match root {
        Some(rt) => rt,
        None => return false,
    };
    walk_passes(fs, rt, &comps, comps.len() - 1, target)
}

/// `fs2` answers the lookup of `name` in inode `x` as `fs1` does.
pub open spec fn same_lookup(fs1: RamFs, fs2: RamFs, x: int, name: Seq<u8>) -> bool {
    &&& fs1.is_dir(x) == fs2.is_dir(x)
    &&& fs1.dir(x).contains_key(name) == fs2.dir(x).contains_key(name)
    &&& fs1.dir(x).contains_key(name) ==> fs1.dir(x)[name] == fs2.dir(x)[name]
}

/// A walk ends where it did when every lookup it makes on the way is
/// answered the same.
pub proof fn lemma_walk_same(fs1: RamFs, fs2: RamFs, cur: int, comps: Seq<Seq<u8>>)
    requires
        forall|k: int| 0 <= k < comps.len() ==> (#[trigger] spec_walk(fs1, cur, comps.take(k)) matches Ok(x)
            ==> same_lookup(fs1, fs2, x as int, comps[k])),
    ensures
        spec_walk(fs2, cur, comps) == spec_walk(fs1, cur, comps),
    decreases comps.len(),
{
    if comps.len() > 0 {
        let pre = comps.drop_last();
        assert forall|k: int| 0 <= k < pre.len() implies (#[trigger] spec_walk(fs1, cur, pre.take(k)) matches Ok(x)
            ==> same_lookup(fs1, fs2, x as int, pre[k])) by {
            assert(pre.take(k) =~= comps.take(k));
            assert(spec_walk(fs1, cur, comps.take(k)) matches Ok(x) ==> same_lookup(fs1, fs2, x as int, comps[k]));
        }
        lemma_walk_same(fs1, fs2, cur, pre);
        let n = comps.len() - 1;
        assert(comps.take(n) =~= pre);
        assert(spec_walk(fs1, cur, comps.take(n)) matches Ok(x) ==> same_lookup(fs1, fs2, x as int, comps[n]));
    }
}

/// Each step of a walk that succeeds looks a name up in a directory that
/// holds it, and lands where the next prefix of the walk ends.
pub proof fn lemma_walk_step(fs: RamFs, cur: int, comps: Seq<Seq<u8>>, k: int)
    requires
        0 <= k < comps.len(),
        spec_walk(fs, cur, comps) is Ok,
    ensures
        spec_walk(fs, cur, comps.take(k)) matches Ok(x) && fs.is_dir(x as int) && fs.dir(x as int).contains_key(comps[k])
            && spec_walk(fs, cur, comps.take(k + 1)) == Ok::<usize, i32>(fs.dir(x as int)[comps[k]]),
{
    assert(comps.take(comps.len() as int) =~= comps);
    if spec_walk(fs, cur, comps.take(k + 1)) is Err {
        lemma_walk_err_prefix(fs, cur, comps, k + 1, comps.len() as int);
    }
    if spec_walk(fs, cur, comps.take(k)) is Err {
        lemma_walk_err_prefix(fs, cur, comps, k, comps.len() as int);
    }
    assert(comps.take(k + 1).drop_last() =~= comps.take(k));
    assert(comps.take(k + 1).last() == comps[k]);
}

/// What `resolve_path_with_cwd` returns.
pub open spec fn spec_resolve(fs: RamFs, root: Option<usize>, cwd: Seq<u8>, path: Seq<u8>) -> Result<usize, i32> {
    match root {
        None => Err(ENODEV),
        Some(r) => spec_walk(fs, r as int, path_components(joined_path(cwd, path))),
    }
}

/// Resolves `path` relative to `cwd` to an inode, starting at the root directory.
pub fn resolve_path_with_cwd(fs: &RamFs, root: Option<usize>, cwd: &Vec<u8>, path: &Vec<u8>) -> (r: Result<usize, i32>)
    requires
        fs.wf(),
        root matches Some(rt) ==> rt < fs.count(),
    ensures
        r == spec_resolve(*fs, root, cwd@, path@),
        r matches Ok(i) ==> i < fs.count(),
        r matches Err(e) ==> e == ENOTDIR || e == ENOENT || e == ENODEV,
{
    proof {
        lemma_walk_errors(*fs, root.unwrap() as int, path_components(joined_path(cwd@, path@)));
    }
    let full = join_with_cwd(cwd, path);
    let comps = components(&full);
    let rt = match root {
        Some(rt) => rt,
        None => return Err(ENODEV),
    };
    let r = walk(fs, rt, &comps, comps.len());
    proof {
        assert(views(comps@).take(comps@.len() as int) =~= views(comps@));
    }
    r
}

/// What `resolve_parent_and_basename_with_cwd` returns: the directory the
/// last component lives in, and that component.
pub open spec fn spec_resolve_parent(fs: RamFs, root: Option<usize>, cwd: Seq<u8>, path: Seq<u8>) -> Result<(usize, Seq<u8>), i32> {
    let c = path_components(joined_path(cwd, path));
    if c.len() == 0 {
        Err(EINVAL)
    } else {
        match root {
            None => Err(ENODEV),
            Some(r) => match spec_walk(fs, r as int, c.drop_last()) {
                Ok(p) => Ok((p, c.last())),
                Err(e) => Err(e),
            },
        }
    }
}

/// Resolves `path` relative to `cwd` to its parent directory and its last component.
pub fn resolve_parent_and_basename_with_cwd(fs: &RamFs, root: Option<usize>, cwd: &Vec<u8>, path: &Vec<u8>) -> (r: Result<(usize, Vec<u8>), i32>)
    requires
        fs.wf(),
        root matches Some(rt) ==> rt < fs.count(),
    ensures
        match (r, spec_resolve_parent(*fs, root, cwd@, path@)) {
            (Ok((p, b)), Ok((sp, sb))) => p == sp && b@ == sb && p < fs.count(),
            (Err(e), Err(se)) => e == se,
            _ => false,
        },
        r matches Err(e) ==> e == ENOTDIR || e == ENOENT || e == ENODEV || e == EINVAL,
{
    proof {
        lemma_walk_errors(*fs, root.unwrap() as int, path_components(joined_path(cwd@, path@)).drop_last());
    }
    let full = join_with_cwd(cwd, path);
    let comps = components(&full);
    if comps.len() == 0 {
        return Err(EINVAL);
    }
    let rt = match root {
        Some(rt) => rt,
        None => return Err(ENODEV),
    };
    let last = comps.len() - 1;
    let r = walk(fs, rt, &comps, last);
    proof {
        assert(views(comps@).take(last as int) =~= views(comps@).drop_last());
    }
    match r {
        Ok(p) => {
            let base = comps[last].clone();
            Ok((p, base))
        },
        Err(e) => Err(e),
    }
}

} // verus!
