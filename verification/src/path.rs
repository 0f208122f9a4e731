//! Unix paths held as strings, with the parts of `std::path` that the
//! pipeline relies on: joining, absoluteness, components and file stems.
use crate::text::{chars_of, push_char, string_from_range};
use vstd::prelude::*;

verus! {

pub open spec fn is_absolute_path(p: Seq<char>) -> bool {
    p.len() > 0 && p[0] == '/'
}

/// `Path::join` on Unix: an absolute `p` replaces `base`; otherwise a
/// separator is added unless `base` is empty or already ends in one.
pub open spec fn join_path(base: Seq<char>, p: Seq<char>) -> Seq<char> {
    if is_absolute_path(p) {
        p
    } else if base.len() > 0 && base.last() != '/' {
        base + seq!['/'] + p
    } else {
        base + p
    }
}

/// Index of the last `/`, or -1.
pub open spec fn last_slash(p: Seq<char>) -> int
    decreases p.len(),
{
    if p.len() == 0 {
        -1
    } else if p.last() == '/' {
        p.len() - 1
    } else {
        last_slash(p.drop_last())
    }
}

pub proof fn lemma_last_slash_bounds(p: Seq<char>)
    ensures
        -1 <= last_slash(p) < p.len(),
        last_slash(p) >= 0 ==> p[last_slash(p)] == '/',
        forall|j: int| last_slash(p) < j < p.len() ==> p[j] != '/',
    decreases p.len(),
{
    if p.len() > 0 && p.last() != '/' {
        lemma_last_slash_bounds(p.drop_last());
        let q = p.drop_last();
        assert forall|j: int| last_slash(p) < j < p.len() implies p[j] != '/' by {
            if j < q.len() {
                assert(p[j] == q[j]);
            }
        }
    }
}

pub proof fn lemma_last_slash_at(p: Seq<char>, k: int)
    requires
        -1 <= k < p.len(),
        k >= 0 ==> p[k] == '/',
        forall|j: int| k < j < p.len() ==> p[j] != '/',
    ensures
        last_slash(p) == k,
    decreases p.len(),
{
    if p.len() > 0 && k < p.len() - 1 {
        let q = p.drop_last();
        assert forall|j: int| k < j < q.len() implies q[j] != '/' by {
            assert(q[j] == p[j]);
        }
        lemma_last_slash_at(q, k);
    }
}

/// A segment that becomes a component: not empty and not `.`.
pub open spec fn normal_segment(s: Seq<char>) -> bool {
    s.len() > 0 && s != seq!['.']
}

/// Components of the part of a path after its root or leading `.`:
/// the `/`-separated segments without empty ones and without `.`.
pub open spec fn body_components(p: Seq<char>) -> Seq<Seq<char>>
    decreases p.len(),
{
    let i = last_slash(p);
    let last = p.subrange(i + 1, p.len() as int);
    proof {
        lemma_last_slash_bounds(p);
    }
    let before = if i >= 0 {
        body_components(p.subrange(0, i))
    } else {
        Seq::<Seq<char>>::empty()
    };
    if normal_segment(last) {
        before.push(last)
    } else {
        before
    }
}

/// `Path::components` on Unix, each component as its text: the root is
/// `/`, a leading current directory is `.`, and the other components are
/// the normal segments in order.
pub open spec fn path_components(p: Seq<char>) -> Seq<Seq<char>> {
    if p.len() > 0 && p[0] == '/' {
        seq![seq!['/']] + body_components(p.drop_first())
    } else if p =~= seq!['.'] || (p.len() >= 2 && p[0] == '.' && p[1] == '/') {
        seq![seq!['.']] + body_components(p.drop_first())
    } else {
        body_components(p)
    }
}

/// `Path::starts_with`: `base`'s components are a prefix of `p`'s.
pub open spec fn path_starts_with(p: Seq<char>, base: Seq<char>) -> bool {
    let a = path_components(p);
    let b = path_components(base);
    b.len() <= a.len() && a.subrange(0, b.len() as int) == b
}

/// `PathBuf == PathBuf`: the components are equal.
pub open spec fn same_path(a: Seq<char>, b: Seq<char>) -> bool {
    path_components(a) == path_components(b)
}

/// `Path::file_name`: the last component when it is a normal one.
pub open spec fn file_name(p: Seq<char>) -> Option<Seq<char>> {
    let c = path_components(p);
    if c.len() > 0 && c.last() != seq!['/'] && c.last() != seq!['.'] && c.last() != seq!['.', '.'] {
        Some(c.last())
    } else {
        None
    }
}

/// `Path::file_stem`: the file name without its last extension; a name
/// whose only dot leads it is kept whole.
pub open spec fn file_stem(p: Seq<char>) -> Option<Seq<char>> {
    match file_name(p) {
        Some(name) => {
            let k = last_index_of(name, '.');
            if k <= 0 {
                Some(name)
            } else {
                Some(name.subrange(0, k))
            }
        },
        None => None,
    }
}

pub open spec fn last_index_of(s: Seq<char>, c: char) -> int
    decreases s.len(),
{
    if s.len() == 0 {
        -1
    } else if s.last() == c {
        s.len() - 1
    } else {
        last_index_of(s.drop_last(), c)
    }
}

pub proof fn lemma_last_index_of_at(s: Seq<char>, c: char, k: int)
    requires
        -1 <= k < s.len(),
        k >= 0 ==> s[k] == c,
        forall|j: int| k < j < s.len() ==> s[j] != c,
    ensures
        last_index_of(s, c) == k,
    decreases s.len(),
{
    if s.len() > 0 && k < s.len() - 1 {
        let q = s.drop_last();
        assert forall|j: int| k < j < q.len() implies q[j] != c by {
            assert(q[j] == s[j]);
        }
        lemma_last_index_of_at(q, c, k);
    }
}


/// A single component: a normal segment without separators.
pub open spec fn single_segment(n: Seq<char>) -> bool {
    &&& normal_segment(n)
    &&& forall|i: int| 0 <= i < n.len() ==> #[trigger] n[i] != '/'
}

proof fn lemma_body_single(n: Seq<char>)
    requires
        single_segment(n),
    ensures
        body_components(n) == seq![n],
{
    lemma_last_slash_at(n, -1);
    assert(n.subrange(0, n.len() as int) =~= n);
    assert(body_components(n) == Seq::<Seq<char>>::empty().push(n));
    assert(Seq::<Seq<char>>::empty().push(n) =~= seq![n]);
}

proof fn lemma_body_append_segment(u: Seq<char>, n: Seq<char>)
    requires
        single_segment(n),
    ensures
        body_components(u + seq!['/'] + n) == body_components(u).push(n),
{
    let p = u + seq!['/'] + n;
    assert(p[u.len() as int] == '/');
    assert forall|j: int| u.len() < j < p.len() implies p[j] != '/' by {
        assert(p[j] == n[j - u.len() - 1]);
    }
    lemma_last_slash_at(p, u.len() as int);
    assert(p.subrange(u.len() as int + 1, p.len() as int) =~= n);
    assert(p.subrange(0, u.len() as int) =~= u);
}

proof fn lemma_body_trailing_slash(u: Seq<char>)
    requires
        u.len() > 0,
        u.last() == '/',
    ensures
        body_components(u) == body_components(u.drop_last()),
{
    lemma_last_slash_at(u, u.len() - 1);
    assert(u.subrange(u.len() as int, u.len() as int) =~= Seq::<char>::empty());
    assert(u.subrange(0, u.len() - 1) =~= u.drop_last());
}

/// Joining a single component onto a path adds exactly that component.
pub proof fn lemma_join_adds_component(t: Seq<char>, n: Seq<char>)
    requires
        single_segment(n),
    ensures
        path_components(join_path(t, n)) == path_components(t).push(n),
{
    assert(!is_absolute_path(n)) by {
        if n.len() > 0 {
            assert(n[0] != '/');
        }
    }
    let j = join_path(t, n);
    if t.len() == 0 {
        assert(j =~= n);
        lemma_body_single(n);
        assert(!(n =~= seq!['.'])) by {
            if n =~= seq!['.'] {
                assert(n == seq!['.']);
            }
        }
        if n.len() >= 2 && n[0] == '.' {
            assert(n[1] != '/');
        }
        assert(body_components(t) =~= Seq::<Seq<char>>::empty()) by {
            lemma_last_slash_at(t, -1);
        }
        assert(path_components(t) =~= Seq::<Seq<char>>::empty());
        assert(path_components(j) =~= path_components(t).push(n));
    } else if t.last() == '/' {
        assert(j =~= t + n);
        let u = t.drop_last();
        assert(t + n =~= u + seq!['/'] + n);
        lemma_body_append_segment(u, n);
        lemma_body_trailing_slash(t);
        if t[0] == '/' {
            let tu = t.drop_first();
            assert(j.drop_first() =~= tu + n);
            if tu.len() == 0 {
                assert(tu + n =~= n);
                lemma_body_single(n);
                assert(body_components(tu) =~= Seq::<Seq<char>>::empty()) by {
                    lemma_last_slash_at(tu, -1);
                }
            } else {
                assert(tu.last() == '/');
                let tuu = tu.drop_last();
                assert(tu + n =~= tuu + seq!['/'] + n);
                lemma_body_append_segment(tuu, n);
                lemma_body_trailing_slash(tu);
            }
            assert(path_components(j) =~= path_components(t).push(n));
        } else if t =~= seq!['.'] || (t.len() >= 2 && t[0] == '.' && t[1] == '/') {
            assert(t.len() >= 2);
            let tu = t.drop_first();
            assert(j.drop_first() =~= tu + n);
            assert(tu.last() == '/');
            let tuu = tu.drop_last();
            assert(tu + n =~= tuu + seq!['/'] + n);
            lemma_body_append_segment(tuu, n);
            lemma_body_trailing_slash(tu);
            assert(j[0] == '.' && j[1] == '/');
            assert(path_components(j) =~= path_components(t).push(n));
        } else {
            assert(j[0] == t[0]);
            if t.len() >= 2 {
                assert(j[1] == t[1]);
            }
            assert(!(j =~= seq!['.'])) by {
                if j =~= seq!['.'] {
                    assert(j.len() == 1);
                }
            }
            assert(path_components(j) == body_components(j));
            assert(path_components(j) =~= path_components(t).push(n));
        }
    } else {
        assert(j =~= t + seq!['/'] + n);
        lemma_body_append_segment(t, n);
        if t[0] == '/' {
            let tu = t.drop_first();
            assert(j.drop_first() =~= tu + seq!['/'] + n);
            lemma_body_append_segment(tu, n);
            assert(path_components(j) =~= path_components(t).push(n));
        } else if t =~= seq!['.'] {
            assert(j[0] == '.' && j[1] == '/');
            let tu = t.drop_first();
            assert(tu =~= Seq::<char>::empty());
            assert(j.drop_first() =~= tu + seq!['/'] + n);
            lemma_body_append_segment(tu, n);
            assert(path_components(j) =~= path_components(t).push(n));
        } else if t.len() >= 2 && t[0] == '.' && t[1] == '/' {
            let tu = t.drop_first();
            assert(j.drop_first() =~= tu + seq!['/'] + n);
            lemma_body_append_segment(tu, n);
            assert(j[0] == '.' && j[1] == '/');
            assert(path_components(j) =~= path_components(t).push(n));
        } else {
            assert(j[0] == t[0]);
            if t.len() >= 2 {
                assert(j[1] == t[1]);
            } else {
                assert(j[1] == '/');
                assert(t[0] != '.') by {
                    if t[0] == '.' {
                        assert(t =~= seq!['.']);
                    }
                }
            }
            assert(!(j =~= seq!['.'])) by {
                if j =~= seq!['.'] {
                    assert(j.len() == 1);
                }
            }
            assert(path_components(j) == body_components(j));
            assert(path_components(j) =~= path_components(t).push(n));
        }
    }
}

/// A path joined with a single component lies strictly below the path.
pub proof fn lemma_join_is_strictly_below(t: Seq<char>, n: Seq<char>)
    requires
        single_segment(n),
    ensures
        path_starts_with(join_path(t, n), t),
        !same_path(join_path(t, n), t),
{
    lemma_join_adds_component(t, n);
    let c = path_components(t);
    assert(c.push(n).subrange(0, c.len() as int) =~= c);
    assert(c.push(n).len() != c.len());
}

pub fn is_absolute(p: &str) -> (b: bool)
    ensures
        b == is_absolute_path(p@),
{
    let v = chars_of(p);
    v.len() > 0 && v[0] == '/'
}

/// Appends `p` to `base` as `Path::join` does.
pub fn join(base: &str, p: &str) -> (r: String)
    ensures
        r@ == join_path(base@, p@),
{
    if is_absolute(p) {
        return String::from_str(p);
    }
    let b = chars_of(base);
    let mut r = String::from_str(base);
    if b.len() > 0 && b[b.len() - 1] != '/' {
        push_char(&mut r, '/');
    }
    r.append(p);
    r
}

/// Components of `p[start..]`, read as a path body.
fn body_components_of(v: &Vec<char>, start: usize) -> (r: Vec<String>)
    requires
        start <= v.len(),
    ensures
        r.deep_view() == body_components(v@.subrange(start as int, v.len() as int)),
{
    let ghost q = v@.subrange(start as int, v.len() as int);
    let mut r: Vec<String> = Vec::new();
    let mut seg_start = start;
    let mut j = start;
    proof {
        assert(q.subrange(0, 0) =~= Seq::<char>::empty());
        lemma_last_slash_at(Seq::<char>::empty(), -1);
        assert(body_components(Seq::<char>::empty()) =~= Seq::<Seq<char>>::empty());
    }
    while j < v.len()
        invariant
            start <= seg_start <= j <= v.len(),
            q == v@.subrange(start as int, v.len() as int),
            seg_start > start ==> v@[seg_start - 1] == '/',
            forall|k: int| seg_start <= k < j ==> v@[k] != '/',
            r.deep_view() == body_components(q.subrange(0, seg_start - start)),
        decreases v.len() - j,
    {
        if v[j] == '/' {
            let seg = string_from_range(v, seg_start, j);
            proof {
                let pre = q.subrange(0, j - start);
                let s = seg_start - start;
                assert forall|k: int| s - 1 < k < pre.len() implies pre[k] != '/' by {
                    assert(pre[k] == v@[start + k]);
                }
                if s > 0 {
                    assert(pre[s - 1] == v@[seg_start - 1]);
                }
                lemma_last_slash_at(pre, s - 1);
                assert(pre.subrange(s, pre.len() as int) =~= seg@);
                if s > 0 {
                    assert(pre.subrange(0, s - 1) =~= q.subrange(0, s - 1));
                    let pre2 = q.subrange(0, s);
                    assert(pre2[s - 1] == '/');
                    lemma_last_slash_at(pre2, s - 1);
                    assert(pre2.subrange(s, pre2.len() as int) =~= Seq::<char>::empty());
                    assert(pre2.subrange(0, s - 1) =~= q.subrange(0, s - 1));
                }
                let post = q.subrange(0, j - start + 1);
                assert(post[j - start] == '/');
                lemma_last_slash_at(post, j - start);
                assert(post.subrange(j - start + 1, post.len() as int) =~= Seq::<char>::empty());
                assert(post.subrange(0, j - start) =~= pre);
            }
            let ghost r_old = r.deep_view();
            let ghost seg_v = seg@;
            if !seg.as_str().is_empty() && !is_single_dot(&seg) {
                r.push(seg);
            }
            proof {
                let s = seg_start - start;
                let pre = q.subrange(0, j - start);
                let post = q.subrange(0, j - start + 1);
                assert(post.subrange(0, j - start) =~= pre);
                assert(body_components(post) == body_components(pre));
                if s > 0 {
                    let pre2 = q.subrange(0, s);
                    assert(body_components(pre2) == body_components(q.subrange(0, s - 1)));
                    assert(pre.subrange(0, s - 1) =~= q.subrange(0, s - 1));
                } else {
                    assert(r_old =~= Seq::<Seq<char>>::empty());
                }
                assert(pre.subrange(s, pre.len() as int) =~= seg_v);
                if normal_segment(seg_v) {
                    assert(body_components(pre) == r_old.push(seg_v));
                    assert(r.deep_view() =~= r_old.push(seg_v));
                } else {
                    assert(body_components(pre) == r_old);
                }
                assert(q.subrange(0, (j + 1) - start) =~= post);
            }
            seg_start = j + 1;
        }
        j = j + 1;
    }
    let seg = string_from_range(v, seg_start, v.len());
    proof {
        let s = seg_start - start;
        assert forall|k: int| s - 1 < k < q.len() implies q[k] != '/' by {
            assert(q[k] == v@[start + k]);
        }
        if s > 0 {
            assert(q[s - 1] == v@[seg_start - 1]);
        }
        lemma_last_slash_at(q, s - 1);
        assert(q.subrange(s, q.len() as int) =~= seg@);
        if s > 0 {
            let pre2 = q.subrange(0, s);
            assert(pre2[s - 1] == '/');
            lemma_last_slash_at(pre2, s - 1);
            assert(pre2.subrange(s, pre2.len() as int) =~= Seq::<char>::empty());
            assert(pre2.subrange(0, s - 1) =~= q.subrange(0, s - 1));
        }
    }
    let ghost r_old = r.deep_view();
    let ghost seg_v = seg@;
    if !seg.as_str().is_empty() && !is_single_dot(&seg) {
        r.push(seg);
    }
    proof {
        let s = seg_start - start;
        if s > 0 {
            let pre2 = q.subrange(0, s);
            assert(body_components(pre2) == body_components(q.subrange(0, s - 1)));
        } else {
            assert(r_old =~= Seq::<Seq<char>>::empty());
        }
        if normal_segment(seg_v) {
            assert(r.deep_view() =~= r_old.push(seg_v));
        }
    }
    r
}


/// `Path::components`, each component as a string.
pub fn components(p: &str) -> (r: Vec<String>)
    ensures
        r.deep_view() == path_components(p@),
{
    let v = chars_of(p);
    if v.len() > 0 && v[0] == '/' {
        let mut r: Vec<String> = Vec::new();
        let first = String::from_str("/");
        proof {
            reveal_strlit("/");
            assert(first@ =~= seq!['/']);
        }
        r.push(first);
        assert(r.deep_view() =~= seq![seq!['/']]);
        let rest = body_components_of(&v, 1);
        proof {
            reveal_strlit("/");
            assert(v@.subrange(1, v@.len() as int) =~= p@.drop_first());
        }
        append_all(&mut r, rest);
        proof {
            assert(r.deep_view() =~= seq![seq!['/']] + body_components(p@.drop_first()));
        }
        r
    } else if (v.len() == 1 && v[0] == '.') || (v.len() >= 2 && v[0] == '.' && v[1] == '/') {
        let mut r: Vec<String> = Vec::new();
        let first = String::from_str(".");
        proof {
            reveal_strlit(".");
            assert(first@ =~= seq!['.']);
        }
        r.push(first);
        assert(r.deep_view() =~= seq![seq!['.']]);
        let rest = body_components_of(&v, 1);
        proof {
            reveal_strlit(".");
            assert(v@.subrange(1, v@.len() as int) =~= p@.drop_first());
            if v@.len() == 1 {
                assert(p@ =~= seq!['.']);
            }
        }
        append_all(&mut r, rest);
        proof {
            assert(r.deep_view() =~= seq![seq!['.']] + body_components(p@.drop_first()));
        }
        r
    } else {
        let r = body_components_of(&v, 0);
        proof {
            assert(v@.subrange(0, v@.len() as int) =~= p@);
            if p@ =~= seq!['.'] {
                assert(v@.len() == 1 && v@[0] == '.');
            }
        }
        r
    }
}

fn append_all(r: &mut Vec<String>, rest: Vec<String>)
    ensures
        final(r).deep_view() == old(r).deep_view() + rest.deep_view(),
{
    let mut i: usize = 0;
    let ghost r0 = r.deep_view();
    while i < rest.len()
        invariant
            i <= rest.len(),
            r.deep_view() == r0 + rest.deep_view().subrange(0, i as int),
        decreases rest.len() - i,
    {
        let item = rest[i].clone();
        proof {
            assert(item@ == rest.deep_view()[i as int]);
        }
        let ghost before = r.deep_view();
        r.push(item);
        proof {
            assert(r.deep_view() =~= before.push(item@));
            assert(rest.deep_view().subrange(0, i + 1) =~= rest.deep_view().subrange(0, i as int).push(rest@[i as int]@));
            assert(r.deep_view() =~= r0 + rest.deep_view().subrange(0, i + 1));
        }
        i = i + 1;
    }
    assert(rest.deep_view().subrange(0, rest.len() as int) =~= rest.deep_view());
}

fn string_eq(a: &String, b: &String) -> (r: bool)
    ensures
        r == (a@ == b@),
{
    *a == *b
}

/// Whether `a` and `b` name the same path, as `PathBuf`'s `==` decides.
pub fn same(a: &str, b: &str) -> (r: bool)
    ensures
        r == same_path(a@, b@),
{
    let ca = components(a);
    let cb = components(b);
    if ca.len() != cb.len() {
        proof {
            assert(ca.deep_view().len() != cb.deep_view().len());
        }
        return false;
    }
    let mut i: usize = 0;
    while i < ca.len()
        invariant
            i <= ca.len() == cb.len(),
            ca.deep_view() == path_components(a@),
            cb.deep_view() == path_components(b@),
            forall|k: int| 0 <= k < i ==> ca.deep_view()[k] == cb.deep_view()[k],
        decreases ca.len() - i,
    {
        if !string_eq(&ca[i], &cb[i]) {
            proof {
                assert(ca.deep_view()[i as int] == ca@[i as int]@);
                assert(cb.deep_view()[i as int] == cb@[i as int]@);
                assert(ca.deep_view()[i as int] != cb.deep_view()[i as int]);
            }
            return false;
        }
        i = i + 1;
    }
    assert(ca.deep_view() =~= cb.deep_view());
    true
}

/// `Path::starts_with`, compared by whole components.
pub fn starts_with(p: &str, base: &str) -> (r: bool)
    ensures
        r == path_starts_with(p@, base@),
{
    let cp = components(p);
    let cb = components(base);
    if cb.len() > cp.len() {
        return false;
    }
    let mut i: usize = 0;
    while i < cb.len()
        invariant
            i <= cb.len() <= cp.len(),
            cp.deep_view() == path_components(p@),
            cb.deep_view() == path_components(base@),
            forall|k: int| 0 <= k < i ==> cp.deep_view()[k] == cb.deep_view()[k],
        decreases cb.len() - i,
    {
        if !string_eq(&cp[i], &cb[i]) {
            proof {
                assert(cp.deep_view()[i as int] == cp@[i as int]@);
                assert(cb.deep_view()[i as int] == cb@[i as int]@);
                assert(cp.deep_view().subrange(0, cb.len() as int)[i as int] != cb.deep_view()[i as int]);
            }
            return false;
        }
        i = i + 1;
    }
    assert(cp.deep_view().subrange(0, cb.len() as int) =~= cb.deep_view());
    true
}

/// Number of components of a path.
pub fn component_count(p: &str) -> (n: usize)
    ensures
        n == path_components(p@).len(),
{
    let c = components(p);
    c.len()
}

/// `Path::file_stem`.
pub fn stem(p: &str) -> (r: Option<String>)
    ensures
        r.deep_view() == file_stem(p@),
{
    let c = components(p);
    if c.len() == 0 {
        return None;
    }
    let last = &c[c.len() - 1];
    let name = chars_of(last.as_str());
    let is_root = name.len() == 1 && name[0] == '/';
    let is_dot = name.len() == 1 && name[0] == '.';
    let is_dotdot = name.len() == 2 && name[0] == '.' && name[1] == '.';
    proof {
        let l = c.deep_view().last();
        assert(l == name@);
        if name@.len() == 1 {
            assert(name@ =~= seq![name@[0]]);
        }
        if name@.len() == 2 {
            assert(name@ =~= seq![name@[0], name@[1]]);
        }
    }
    if is_root || is_dot || is_dotdot {
        return None;
    }
    let mut k: usize = name.len();
    while k > 0 && name[k - 1] != '.'
        invariant
            k <= name.len(),
            forall|j: int| k <= j < name.len() ==> name@[j] != '.',
        decreases k,
    {
        k = k - 1;
    }
    proof {
        if k > 0 {
            lemma_last_index_of_at(name@, '.', k - 1);
        } else {
            lemma_last_index_of_at(name@, '.', -1);
        }
    }
    if k <= 1 {
        Some(string_from_range(&name, 0, name.len()))
    } else {
        Some(string_from_range(&name, 0, k - 1))
    }
}

fn is_single_dot(s: &String) -> (b: bool)
    ensures
        b == (s@ == seq!['.']),
{
    let v = chars_of(s.as_str());
    let b = v.len() == 1 && v[0] == '.';
    proof {
        if v@.len() == 1 && v@[0] == '.' {
            assert(v@ =~= seq!['.']);
        }
    }
    b
}

} // verus!
