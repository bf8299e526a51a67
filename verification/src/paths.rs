//! File paths as text. Parts are separated by `/`; empty parts and `.` parts
//! inside a path carry no meaning, and neither does a trailing separator.

use crate::text::{cat, chars_of, str_eq, text_of};
use vstd::prelude::*;
use vstd::string::*;

verus! {

/// `p` without trailing separators and trailing `.` parts.
pub open spec fn trim_end(p: Seq<char>) -> Seq<char>
    decreases p.len(),
{
    if p.len() > 0 && p.last() == '/' {
        trim_end(p.drop_last())
    } else if p.len() >= 2 && p.last() == '.' && p[p.len() - 2] == '/' {
        trim_end(p.drop_last())
    } else {
        p
    }
}

/// The position just after the last separator of `t`.
pub open spec fn base_start(t: Seq<char>) -> nat
    decreases t.len(),
{
    if t.len() == 0 {
        0
    } else if t.last() == '/' {
        t.len()
    } else {
        base_start(t.drop_last())
    }
}

/// The text in front of the last part of `p`, its separator included.
pub open spec fn head(p: Seq<char>) -> Seq<char> {
    trim_end(p).take(base_start(trim_end(p)) as int)
}

/// The last part of `p`; empty for the empty path and for the root.
pub open spec fn base(p: Seq<char>) -> Seq<char> {
    trim_end(p).skip(base_start(trim_end(p)) as int)
}

/// The final part of `p` where it names a file or a directory.
pub open spec fn file_name(p: Seq<char>) -> Option<Seq<char>> {
    let b = base(p);
    if b.len() == 0 || b == seq!['.'] || b == seq!['.', '.'] {
        None
    } else {
        Some(b)
    }
}

/// `p` without trailing separators; the root stays the root.
pub open spec fn trim_dir(p: Seq<char>) -> Seq<char> {
    if p.len() > 0 && trim_end(p).len() == 0 {
        seq!['/']
    } else {
        trim_end(p)
    }
}

/// `p` without its final part; `None` for the empty path and for the root.
pub open spec fn parent(p: Seq<char>) -> Option<Seq<char>> {
    if trim_end(p).len() == 0 {
        None
    } else {
        Some(trim_dir(head(p)))
    }
}

/// Whether `p` starts at the root.
pub open spec fn is_absolute(p: Seq<char>) -> bool {
    p.len() > 0 && p[0] == '/'
}

/// `b` inside the directory `a`; an absolute `b` stands alone.
pub open spec fn join(a: Seq<char>, b: Seq<char>) -> Seq<char> {
    if is_absolute(b) {
        b
    } else if a.len() == 0 || a.last() == '/' {
        a + b
    } else {
        a.push('/') + b
    }
}

/// `p` with its final part replaced by `name`, or with `name` added where
/// `p` has no file name.
pub open spec fn with_file_name(p: Seq<char>, name: Seq<char>) -> Seq<char> {
    if file_name(p) is Some {
        join(parent(p).unwrap(), name)
    } else {
        join(p, name)
    }
}

/// The position of the last `.` of `s`, if any.
pub open spec fn last_dot(s: Seq<char>) -> Option<nat>
    decreases s.len(),
{
    if s.len() == 0 {
        None
    } else if s.last() == '.' {
        Some((s.len() - 1) as nat)
    } else {
        last_dot(s.drop_last())
    }
}

/// What follows the last `.` of the file name; a name without a dot, or with
/// its only dot in front, has no extension.
pub open spec fn extension(p: Seq<char>) -> Option<Seq<char>> {
    match file_name(p) {
        Some(f) => match last_dot(f) {
            Some(d) => if d == 0 {
                None
            } else {
                Some(f.skip(d as int + 1))
            },
            None => None,
        },
        None => None,
    }
}

proof fn trim_end_is_prefix(p: Seq<char>)
    ensures
        trim_end(p).len() <= p.len(),
        trim_end(p) == p.take(trim_end(p).len() as int),
    decreases p.len(),
{
    if (p.len() > 0 && p.last() == '/') || (p.len() >= 2 && p.last() == '.' && p[p.len() - 2]
        == '/') {
        trim_end_is_prefix(p.drop_last());
        assert(p.drop_last().take(trim_end(p).len() as int) =~= p.take(trim_end(p).len() as int));
    } else {
        assert(p.take(p.len() as int) =~= p);
    }
}

proof fn base_start_bound(t: Seq<char>)
    ensures
        base_start(t) <= t.len(),
        t.len() > 0 && t.last() != '/' ==> base_start(t) < t.len(),
        base_start(t) > 0 ==> t[base_start(t) - 1] == '/',
        forall|i: int| base_start(t) <= i < t.len() ==> t[i] != '/',
    decreases t.len(),
{
    if t.len() > 0 && t.last() != '/' {
        base_start_bound(t.drop_last());
        assert forall|i: int| base_start(t) <= i < t.len() implies t[i] != '/' by {
            if i < t.len() - 1 {
                assert(t.drop_last()[i] == t[i]);
            }
        }
    }
}

proof fn trim_end_last(p: Seq<char>)
    ensures
        trim_end(p).len() > 0 ==> trim_end(p).last() != '/',
        trim_end(trim_end(p)) == trim_end(p),
    decreases p.len(),
{
    if (p.len() > 0 && p.last() == '/') || (p.len() >= 2 && p.last() == '.' && p[p.len() - 2]
        == '/') {
        trim_end_last(p.drop_last());
    }
}

/// The parts of `p`, in order.
pub open spec fn parts(p: Seq<char>) -> Seq<Seq<char>>
    decreases p.len(),
    via parts_decreases
{
    if trim_end(p).len() == 0 {
        Seq::empty()
    } else {
        parts(head(p)).push(base(p))
    }
}

#[via_fn]
proof fn parts_decreases(p: Seq<char>) {
    trim_end_is_prefix(p);
    trim_end_last(p);
    base_start_bound(trim_end(p));
}

/// Whether two paths name the same place: both or neither start at the root,
/// and their parts agree.
pub open spec fn same_path(a: Seq<char>, b: Seq<char>) -> bool {
    is_absolute(a) == is_absolute(b) && parts(a) == parts(b)
}

fn trim_len(c: &Vec<char>, n: usize) -> (r: usize)
    requires
        n <= c.len(),
    ensures
        r <= n,
        trim_end(c@.take(n as int)) == c@.take(r as int),
        r == trim_end(c@.take(n as int)).len(),
{
    let mut r: usize = n;
    while (r > 0 && c[r - 1] == '/') || (r >= 2 && c[r - 1] == '.' && c[r - 2] == '/')
        invariant
            r <= n <= c.len(),
            trim_end(c@.take(n as int)) == trim_end(c@.take(r as int)),
        decreases r,
    {
        assert(c@.take(r as int).drop_last() =~= c@.take(r - 1));
        r = r - 1;
    }
    r
}

fn base_start_at(c: &Vec<char>, n: usize) -> (r: usize)
    requires
        n <= c.len(),
    ensures
        r <= n,
        r == base_start(c@.take(n as int)),
{
    let mut r: usize = n;
    while r > 0 && c[r - 1] != '/'
        invariant
            r <= n <= c.len(),
            base_start(c@.take(n as int)) == base_start(c@.take(r as int)),
        decreases r,
    {
        assert(c@.take(r as int).drop_last() =~= c@.take(r - 1));
        r = r - 1;
    }
    r
}

/// The final part of `p` where it names a file or a directory.
pub fn file_name_of(p: &str) -> (r: Option<String>)
    ensures
        match r {
            Some(f) => file_name(p@) == Some(f@),
            None => file_name(p@) is None,
        },
{
    let c = chars_of(p);
    assert(c@.take(c@.len() as int) =~= c@);
    let t = trim_len(&c, c.len());
    let s = base_start_at(&c, t);
    let b = text_of(&c, s, t);
    assert(b@ =~= base(p@));
    proof {
        reveal_strlit(".");
        reveal_strlit("..");
        assert("."@ =~= seq!['.']);
        assert(".."@ =~= seq!['.', '.']);
    }
    if s == t || str_eq(&b, ".") || str_eq(&b, "..") {
        None
    } else {
        Some(b)
    }
}

/// `p` without its final part.
pub fn parent_of(p: &str) -> (r: Option<String>)
    ensures
        match r {
            Some(d) => parent(p@) == Some(d@),
            None => parent(p@) is None,
        },
{
    let c = chars_of(p);
    assert(c@.take(c@.len() as int) =~= c@);
    let t = trim_len(&c, c.len());
    if t == 0 {
        return None;
    }
    let s = base_start_at(&c, t);
    assert(head(p@) =~= c@.take(s as int));
    let d = trim_len(&c, s);
    if s > 0 && d == 0 {
        proof {
            reveal_strlit("/");
            assert("/"@ =~= seq!['/']);
        }
        Some("/".to_owned())
    } else {
        let r = text_of(&c, 0, d);
        assert(r@ =~= c@.take(d as int));
        Some(r)
    }
}

/// Whether `p` starts at the root.
pub fn is_absolute_path(p: &str) -> (r: bool)
    ensures
        r == is_absolute(p@),
{
    let c = chars_of(p);
    c.len() > 0 && c[0] == '/'
}

/// `b` inside the directory `a`; an absolute `b` stands alone.
pub fn join_path(a: &str, b: &str) -> (r: String)
    ensures
        r@ == join(a@, b@),
{
    if is_absolute_path(b) {
        return b.to_owned();
    }
    let c = chars_of(a);
    if c.len() == 0 || c[c.len() - 1] == '/' {
        cat(a, b)
    } else {
        let mut r = a.to_owned();
        r.push('/');
        r.append(b);
        r
    }
}

/// `p` with its final part replaced by `name`, or with `name` added where
/// `p` has no file name.
pub fn set_file_name(p: &str, name: &str) -> (r: String)
    ensures
        r@ == with_file_name(p@, name@),
{
    match file_name_of(p) {
        Some(_f) => {
            match parent_of(p) {
                Some(d) => join_path(&d, name),
                None => {
                    assert(base(p@) =~= Seq::<char>::empty()) by {
                        base_start_bound(trim_end(p@));
                    }
                    join_path(p, name)
                },
            }
        },
        None => join_path(p, name),
    }
}

/// What follows the last `.` of the file name.
pub fn extension_of(p: &str) -> (r: Option<String>)
    ensures
        match r {
            Some(e) => extension(p@) == Some(e@),
            None => extension(p@) is None,
        },
{
    let f = match file_name_of(p) {
        Some(f) => f,
        None => return None,
    };
    let c = chars_of(&f);
    let mut i: usize = c.len();
    assert(c@.take(c@.len() as int) =~= c@);
    while i > 0 && c[i - 1] != '.'
        invariant
            i <= c.len(),
            last_dot(c@) == last_dot(c@.take(i as int)),
        decreases i,
    {
        assert(c@.take(i as int).drop_last() =~= c@.take(i - 1));
        i = i - 1;
    }
    assert(file_name(p@) == Some(c@));
    if i == 0 {
        assert(c@.take(0).len() == 0);
        None
    } else {
        assert(c@.take(i as int).last() == '.');
        assert(last_dot(c@) == Some((i - 1) as nat));
        if i == 1 {
            None
        } else {
            let e = text_of(&c, i, c.len());
            assert(e@ =~= c@.skip(i as int));
            Some(e)
        }
    }
}

/// Where part `k` of `p` begins.
pub open spec fn part_start(p: Seq<char>, k: nat) -> nat
    decreases p.len(),
    via part_start_decreases
{
    if trim_end(p).len() == 0 {
        0
    } else if parts(head(p)).len() <= k {
        base_start(trim_end(p))
    } else {
        part_start(head(p), k)
    }
}

#[via_fn]
proof fn part_start_decreases(p: Seq<char>, k: nat) {
    trim_end_is_prefix(p);
    trim_end_last(p);
    base_start_bound(trim_end(p));
}

/// The text of `p` from its part `k` on.
pub open spec fn rest_from(p: Seq<char>, k: nat) -> Seq<char> {
    if parts(p).len() <= k {
        Seq::empty()
    } else {
        trim_end(p).skip(part_start(p, k) as int)
    }
}

/// `p` relative to the directory `dir`, where `p` lies in it.
pub open spec fn strip_prefix(p: Seq<char>, dir: Seq<char>) -> Option<Seq<char>> {
    if dir.len() == 0 {
        Some(trim_dir(p))
    } else if is_absolute(dir) == is_absolute(p) && parts(dir).is_prefix_of(parts(p)) {
        Some(rest_from(p, parts(dir).len()))
    } else {
        None
    }
}

proof fn push_equal<T>(x: Seq<T>, a: T, y: Seq<T>, b: T)
    ensures
        (x.push(a) == y.push(b)) <==> (x == y && a == b),
{
    if x.push(a) == y.push(b) {
        assert(x.push(a).drop_last() =~= x);
        assert(y.push(b).drop_last() =~= y);
        assert(x.push(a).last() == a && y.push(b).last() == b);
    }
}

fn count_parts(c: &Vec<char>) -> (r: usize)
    ensures
        r == parts(c@).len(),
        r <= c.len(),
{
    let mut n: usize = c.len();
    let mut k: usize = 0;
    assert(c@.take(c@.len() as int) =~= c@);
    loop
        invariant
            n <= c.len(),
            k <= c.len() - n,
            parts(c@).len() == parts(c@.take(n as int)).len() + k,
        ensures
            k == parts(c@).len(),
            k <= c.len(),
        decreases n,
    {
        let t = trim_len(c, n);
        if t == 0 {
            break;
        }
        let s = base_start_at(c, t);
        proof {
            trim_end_last(c@.take(n as int));
            base_start_bound(c@.take(t as int));
            assert(head(c@.take(n as int)) =~= c@.take(s as int));
        }
        n = s;
        k = k + 1;
    }
    k
}

fn same_parts(a: &Vec<char>, na: usize, b: &Vec<char>, nb: usize) -> (r: bool)
    requires
        na <= a.len(),
        nb <= b.len(),
    ensures
        r == (parts(a@.take(na as int)) == parts(b@.take(nb as int))),
{
    let mut i: usize = na;
    let mut j: usize = nb;
    loop
        invariant
            i <= na <= a.len(),
            j <= nb <= b.len(),
            (parts(a@.take(na as int)) == parts(b@.take(nb as int))) == (parts(a@.take(i as int))
                == parts(b@.take(j as int))),
        decreases i,
    {
        let ti = trim_len(a, i);
        let tj = trim_len(b, j);
        if ti == 0 || tj == 0 {
            proof {
                let pa = parts(a@.take(i as int));
                let pb = parts(b@.take(j as int));
                if ti == 0 && tj > 0 {
                    assert(pa.len() == 0 && pb.len() > 0);
                } else if ti > 0 && tj == 0 {
                    assert(pa.len() > 0 && pb.len() == 0);
                }
            }
            return ti == tj;
        }
        let si = base_start_at(a, ti);
        let sj = base_start_at(b, tj);
        proof {
            trim_end_last(a@.take(i as int));
            base_start_bound(a@.take(ti as int));
            assert(head(a@.take(i as int)) =~= a@.take(si as int));
            assert(head(b@.take(j as int)) =~= b@.take(sj as int));
            assert(base(a@.take(i as int)) =~= a@.subrange(si as int, ti as int));
            assert(base(b@.take(j as int)) =~= b@.subrange(sj as int, tj as int));
            push_equal(
                parts(a@.take(si as int)),
                base(a@.take(i as int)),
                parts(b@.take(sj as int)),
                base(b@.take(j as int)),
            );
        }
        let x = text_of(a, si, ti);
        let y = text_of(b, sj, tj);
        if !str_eq(&x, &y) {
            return false;
        }
        i = si;
        j = sj;
    }
}

/// Whether two paths name the same place.
pub fn is_same_path(a: &str, b: &str) -> (r: bool)
    ensures
        r == same_path(a@, b@),
{
    let x = chars_of(a);
    let y = chars_of(b);
    assert(x@.take(x@.len() as int) =~= x@);
    assert(y@.take(y@.len() as int) =~= y@);
    is_absolute_path(a) == is_absolute_path(b) && same_parts(&x, x.len(), &y, y.len())
}

/// `p` relative to the directory `dir`, where `p` lies in it.
pub fn strip_prefix_of(p: &str, dir: &str) -> (r: Option<String>)
    ensures
        match r {
            Some(rest) => strip_prefix(p@, dir@) == Some(rest@),
            None => strip_prefix(p@, dir@) is None,
        },
{
    let c = chars_of(p);
    let d = chars_of(dir);
    assert(c@.take(c@.len() as int) =~= c@);
    assert(d@.take(d@.len() as int) =~= d@);
    let t = trim_len(&c, c.len());
    if d.len() == 0 {
        if c.len() > 0 && t == 0 {
            proof {
                reveal_strlit("/");
                assert("/"@ =~= seq!['/']);
            }
            return Some("/".to_owned());
        }
        let whole = text_of(&c, 0, t);
        assert(whole@ =~= trim_end(p@));
        return Some(whole);
    }
    let kp = count_parts(&c);
    let kd = count_parts(&d);
    if is_absolute_path(dir) != is_absolute_path(p) || kd > kp {
        return None;
    }
    let mut n: usize = c.len();
    let mut left: usize = kp;
    let mut start: usize = t;
    assert(parts(c@).take(kp as int) =~= parts(c@));
    while left > kd
        invariant
            n <= c.len(),
            kd <= left <= kp,
            kp == parts(c@).len(),
            t <= c.len(),
            start <= t,
            parts(c@.take(n as int)) == parts(c@).take(left as int),
            n == c.len() && left == kp || n <= t,
            trim_end(c@) == c@.take(t as int),
            c@.take(c@.len() as int) == c@,
            forall|k: nat|
                k < left ==> #[trigger] part_start(c@, k) == part_start(c@.take(n as int), k),
            left < kp ==> start == part_start(c@, left as nat),
            left == kp ==> start == t,
        decreases left,
    {
        let e = trim_len(&c, n);
        assert(e > 0) by {
            if e == 0 {
                assert(parts(c@.take(n as int)).len() == 0);
            }
        }
        let s = base_start_at(&c, e);
        proof {
            let cur = c@.take(n as int);
            assert(n == c.len() ==> e == t);
            trim_end_last(cur);
            base_start_bound(c@.take(e as int));
            assert(head(cur) =~= c@.take(s as int));
            assert(parts(cur).drop_last() =~= parts(head(cur)));
            assert(parts(c@).take(left as int).drop_last() =~= parts(c@).take(left - 1));
            assert(part_start(cur, (left - 1) as nat) == s);
            assert(part_start(c@, (left - 1) as nat) == s);
            assert forall|k: nat| k < left - 1 implies #[trigger] part_start(c@, k) == part_start(
                c@.take(s as int),
                k,
            ) by {
                assert(part_start(c@, k) == part_start(cur, k));
            }
        }
        start = s;
        n = s;
        left = left - 1;
    }
    if !same_parts(&c, n, &d, d.len()) {
        proof {
            if parts(d@).is_prefix_of(parts(c@)) {
                assert(parts(c@).take(kd as int) =~= parts(d@));
            }
        }
        return None;
    }
    assert(parts(d@).is_prefix_of(parts(c@)));
    let rest = text_of(&c, start, t);
    if kp > kd {
        assert(rest@ =~= trim_end(p@).skip(start as int));
    } else {
        assert(rest@ =~= Seq::<char>::empty());
    }
    Some(rest)
}

/// Whether `b` begins with a part that is neither empty nor `.`.
spec fn begins_with_part(b: Seq<char>) -> bool {
    b.len() > 0 && b[0] != '/' && !(b[0] == '.' && (b.len() == 1 || b[1] == '/'))
}

/// Whether `d` is empty or ends in a separator.
spec fn is_dir_text(d: Seq<char>) -> bool {
    d.len() == 0 || d.last() == '/'
}

proof fn trim_end_append(d: Seq<char>, b: Seq<char>)
    requires
        is_dir_text(d),
        begins_with_part(b),
    ensures
        trim_end(d + b) == d + trim_end(b),
        begins_with_part(trim_end(b)),
    decreases b.len(),
{
    let whole = d + b;
    if b.last() == '/' || (b.len() >= 2 && b.last() == '.' && b[b.len() - 2] == '/') {
        assert(whole.drop_last() =~= d + b.drop_last());
        assert(begins_with_part(b.drop_last()));
        trim_end_append(d, b.drop_last());
        assert(whole.last() == b.last());
        if b.last() != '/' {
            assert(whole[whole.len() - 2] == b[b.len() - 2]);
        }
    } else {
        assert(whole.last() == b.last());
        if b.len() >= 2 {
            assert(whole[whole.len() - 2] == b[b.len() - 2]);
        }
    }
}

proof fn base_start_append(d: Seq<char>, t: Seq<char>)
    requires
        is_dir_text(d),
    ensures
        base_start(d + t) == d.len() + base_start(t),
    decreases t.len(),
{
    if t.len() == 0 {
        assert(d + t =~= d);
    } else {
        assert((d + t).last() == t.last());
        if t.last() != '/' {
            assert((d + t).drop_last() =~= d + t.drop_last());
            base_start_append(d, t.drop_last());
        }
    }
}

proof fn parts_append(d: Seq<char>, b: Seq<char>)
    requires
        is_dir_text(d),
        begins_with_part(b),
    ensures
        parts(d + b) == parts(d) + parts(b),
    decreases b.len(),
{
    let t = trim_end(b);
    trim_end_append(d, b);
    base_start_append(d, t);
    base_start_bound(t);
    trim_end_last(b);
    trim_end_is_prefix(b);
    assert(head(d + b) =~= d + head(b));
    assert(base(d + b) =~= base(b));
    if head(b).len() == 0 {
        assert(d + head(b) =~= d);
        assert(trim_end(head(b)).len() == 0);
        assert(parts(head(b)) =~= Seq::<Seq<char>>::empty());
        assert(parts(d + b) =~= parts(d) + parts(b));
    } else {
        assert(head(b)[0] == b[0]);
        assert(head(b).last() == '/');
        assert(head(b).len() >= 2);
        assert(head(b)[1] == b[1]);
        parts_append(d, head(b));
        assert(parts(d + b) =~= parts(d) + parts(b));
    }
}

proof fn split_at_part(p: Seq<char>, k: nat)
    requires
        k < parts(p).len(),
    ensures
        part_start(p, k) < trim_end(p).len(),
        trim_end(p)[part_start(p, k) as int] != '/',
        parts(trim_end(p).take(part_start(p, k) as int)) == parts(p).take(k as int),
        is_dir_text(trim_end(p).take(part_start(p, k) as int)),
        begins_with_part(trim_end(p).skip(part_start(p, k) as int)) || (k == 0 && part_start(p, k)
            == 0),
    decreases p.len(),
{
    let t = trim_end(p);
    let e = base_start(t) as int;
    trim_end_is_prefix(p);
    trim_end_last(p);
    base_start_bound(t);
    assert(parts(p).len() == parts(head(p)).len() + 1);
    if parts(head(p)).len() <= k {
        assert(parts(p).take(k as int) =~= parts(head(p)));
        let b = t.skip(e);
        assert(b[0] == t[e]);
        if b[0] == '.' && b.len() > 1 {
            assert(b[1] == t[e + 1]);
        }
        if b[0] == '.' && b.len() == 1 && e > 0 {
            assert(t.last() == '.' && t[t.len() - 2] == '/');
            trim_end_is_prefix(t.drop_last());
            assert(false);
        }
        if e == 0 {
            assert(head(p) =~= Seq::<char>::empty());
            assert(trim_end(head(p)).len() == 0);
            assert(parts(head(p)).len() == 0);
        }
    } else {
        let h = head(p);
        split_at_part(h, k);
        let s = part_start(h, k) as int;
        trim_end_is_prefix(h);
        let th = trim_end(h);
        assert(t.take(s) =~= th.take(s));
        assert(parts(p).take(k as int) =~= parts(h).take(k as int));
        let b = th.skip(s);
        let full = t.skip(s);
        assert(full[0] == b[0]);
        if b.len() > 1 {
            assert(full[1] == b[1]);
        }
    }
}

proof fn parts_of_trimmed(p: Seq<char>)
    ensures
        parts(trim_end(p)) == parts(p),
{
    trim_end_last(p);
}

/// A path made relative to a directory and joined to it again names the same
/// place as before.
pub proof fn strip_then_join(p: Seq<char>, dir: Seq<char>)
    requires
        strip_prefix(p, dir) is Some,
    ensures
        same_path(join(dir, strip_prefix(p, dir).unwrap()), p),
        dir.len() > 0 ==> !is_absolute(strip_prefix(p, dir).unwrap()),
{
    let r = strip_prefix(p, dir).unwrap();
    trim_end_is_prefix(p);
    trim_end_last(p);
    parts_of_trimmed(p);
    if dir.len() == 0 {
        if p.len() > 0 && trim_end(p).len() == 0 {
            assert(seq!['/'].drop_last() =~= Seq::<char>::empty());
            reveal_with_fuel(trim_end, 2);
            assert(trim_end(seq!['/']).len() == 0);
            assert(parts(seq!['/']) =~= parts(p));
            root_of_trimmed(p);
        } else if p.len() > 0 {
            assert(trim_end(p)[0] == p[0]);
        }
        assert(join(dir, r) == r || dir + r =~= r);
    } else {
        let k = parts(dir).len();
        let d = if dir.last() == '/' {
            dir
        } else {
            dir.push('/')
        };
        assert(parts(d) == parts(dir)) by {
            if dir.last() != '/' {
                assert(d.drop_last() =~= dir);
            }
        }
        if parts(p).len() <= k {
            assert(parts(dir) =~= parts(p));
            assert(join(dir, r) =~= d);
        } else {
            split_at_part(p, k);
            let s = part_start(p, k) as int;
            let t = trim_end(p);
            assert(t.take(s) + t.skip(s) =~= t);
            assert(t[0] == p[0]);
            assert(t.skip(s)[0] == t[s]);
            if !begins_with_part(t.skip(s)) {
                // Then the directory has no parts, so it is the root, and so is
                // the start of `p`: a leading `.` cannot follow.
                no_parts_is_root(dir);
                assert(false);
            }
            parts_append(t.take(s), t.skip(s));
            parts_append(d, t.skip(s));
            assert(parts(p).take(k as int) =~= parts(dir));
            assert(join(dir, r) =~= d + r);
            assert(parts(join(dir, r)) =~= parts(p));
            assert((d + r)[0] == d[0]);
        }
    }
}

proof fn root_of_trimmed(p: Seq<char>)
    requires
        p.len() > 0,
        trim_end(p).len() == 0,
    ensures
        is_absolute(p),
    decreases p.len(),
{
    if p.len() > 1 {
        assert(p.drop_last()[0] == p[0]);
        root_of_trimmed(p.drop_last());
    }
}

proof fn no_parts_is_root(p: Seq<char>)
    requires
        p.len() > 0,
        parts(p).len() == 0,
    ensures
        is_absolute(p),
{
    root_of_trimmed(p);
}

/// Whether `n` can be the name of a file: one part, neither `.` nor `..`.
pub open spec fn is_name(n: Seq<char>) -> bool {
    &&& n.len() > 0
    &&& n != seq!['.']
    &&& n != seq!['.', '.']
    &&& forall|i: int| 0 <= i < n.len() ==> n[i] != '/'
}

proof fn whole_name(n: Seq<char>)
    requires
        is_name(n),
    ensures
        begins_with_part(n),
        trim_end(n) == n,
        base_start(n) == 0,
{
    if n[0] == '.' && n.len() == 1 {
        assert(n =~= seq!['.']);
    }
    assert(n.last() != '/');
    base_start_bound(n);
    if base_start(n) > 0 {
        assert(n[base_start(n) - 1] == '/');
    }
}

/// A file name is a name, so another file can have it.
pub proof fn file_name_is_name(p: Seq<char>)
    requires
        file_name(p) is Some,
    ensures
        is_name(file_name(p).unwrap()),
{
    let t = trim_end(p);
    base_start_bound(t);
    let b = base(p);
    assert forall|i: int| 0 <= i < b.len() implies b[i] != '/' by {
        assert(b[i] == t[base_start(t) + i]);
    }
}

/// A path whose file name was changed has the new file name.
pub proof fn renamed_has_name(p: Seq<char>, n: Seq<char>)
    requires
        is_name(n),
    ensures
        file_name(with_file_name(p, n)) == Some(n),
{
    whole_name(n);
    let dir = if file_name(p) is Some {
        parent(p).unwrap()
    } else {
        p
    };
    let d = if dir.len() == 0 || dir.last() == '/' {
        dir
    } else {
        dir.push('/')
    };
    assert(with_file_name(p, n) == d + n);
    trim_end_append(d, n);
    base_start_append(d, n);
    assert(base(d + n) =~= n);
}

proof fn trimmed_stays(p: Seq<char>)
    ensures
        trim_end(trim_end(p)) == trim_end(p),
        trim_end(p).len() > 0 ==> trim_end(p).last() != '/',
    decreases p.len(),
{
    if p.len() > 0 && (p.last() == '/' || (p.len() >= 2 && p.last() == '.' && p[p.len() - 2]
        == '/')) {
        trimmed_stays(p.drop_last());
    }
}

/// A path whose file name was changed stays in the same directory.
pub proof fn renamed_stays_in_place(p: Seq<char>, n: Seq<char>)
    requires
        is_name(n),
        file_name(p) is Some,
    ensures
        parent(with_file_name(p, n)) == parent(p),
{
    whole_name(n);
    let dir = parent(p).unwrap();
    let d = if dir.len() == 0 || dir.last() == '/' {
        dir
    } else {
        dir.push('/')
    };
    assert(with_file_name(p, n) == d + n);
    trim_end_append(d, n);
    base_start_append(d, n);
    assert(head(d + n) =~= d);
    trimmed_stays(head(p));
    assert(trim_end(d + n).len() > 0);
    if d != dir {
        assert(d.drop_last() =~= dir);
        assert(trim_end(d) == trim_end(dir));
        assert(dir == trim_end(head(p)));
        assert(trim_dir(d) == dir);
    } else if dir.len() > 0 {
        assert(dir =~= seq!['/']);
        assert(dir.drop_last() =~= Seq::<char>::empty());
        assert(trim_end(dir.drop_last()).len() == 0);
        assert(trim_end(dir).len() == 0);
    }
}

proof fn last_dot_of(a: Seq<char>, e: Seq<char>)
    requires
        forall|i: int| 0 <= i < e.len() ==> e[i] != '.',
    ensures
        last_dot((a + seq!['.']) + e) == Some(a.len()),
    decreases e.len(),
{
    let s = (a + seq!['.']) + e;
    if e.len() == 0 {
        assert(s =~= a + seq!['.']);
        assert(s.last() == '.');
    } else {
        assert(s.last() == e.last());
        assert(s.drop_last() =~= (a + seq!['.']) + e.drop_last());
        last_dot_of(a, e.drop_last());
    }
}

/// A file named by a stem, a dot and an ending without dots has that ending as
/// its extension.
pub proof fn named_has_extension(p: Seq<char>, stem: Seq<char>, e: Seq<char>)
    requires
        is_name(stem),
        forall|i: int| 0 <= i < e.len() ==> e[i] != '.' && e[i] != '/',
        e.len() > 0,
    ensures
        extension(with_file_name(p, (stem + seq!['.']) + e)) == Some(e),
{
    let n = (stem + seq!['.']) + e;
    assert(is_name(n)) by {
        assert(n[stem.len() as int] == '.');
        assert(n.last() == e.last());
        if n == seq!['.', '.'] {
            assert(seq!['.', '.'].last() == '.');
        }
        assert(n.len() >= 3);
    }
    renamed_has_name(p, n);
    last_dot_of(stem, e);
    assert(n.skip(stem.len() as int + 1) =~= e);
}

/// A name that is joined to a directory is the file name of the result and its
/// last part, behind those of the directory.
pub proof fn joined_name_comes_last(d: Seq<char>, n: Seq<char>)
    requires
        is_name(n),
    ensures
        file_name(join(d, n)) == Some(n),
        parts(join(d, n)) == parts(d).push(n),
        trim_end(join(d, n)) == join(d, n),
        n.is_suffix_of(join(d, n)),
        d.is_prefix_of(join(d, n)),
        d.len() > 0 ==> is_absolute(join(d, n)) == is_absolute(d),
{
    whole_name(n);
    let e = if d.len() == 0 || d.last() == '/' {
        d
    } else {
        d.push('/')
    };
    assert(join(d, n) == e + n);
    trim_end_append(e, n);
    base_start_append(e, n);
    assert(base(e + n) =~= n);
    assert(head(e + n) =~= e);
    if e != d {
        assert(e.drop_last() =~= d);
        assert(trim_end(e) == trim_end(d));
    }
    assert(parts(e) == parts(d));
    assert(n =~= (e + n).skip((e + n).len() - n.len()));
    assert(d =~= (e + n).take(d.len() as int));
}

/// The parent of what was joined to a directory is that directory.
pub proof fn parent_of_joined(d: Seq<char>, n: Seq<char>)
    requires
        is_name(n),
        trim_end(d) == d,
    ensures
        parent(join(d, n)) == Some(d),
{
    whole_name(n);
    trimmed_stays(d);
    if d.len() == 0 {
        assert(join(d, n) =~= n);
        assert(head(n) =~= d);
    } else {
        let e = d.push('/');
        assert(join(d, n) == e + n);
        trim_end_append(e, n);
        base_start_append(e, n);
        assert(head(e + n) =~= e);
        assert(e.drop_last() =~= d);
        assert(trim_end(e) == trim_end(d));
    }
}

/// An absolute path stays as it is, whatever it is joined to.
pub proof fn absolute_paths_are_not_moved(d: Seq<char>, p: Seq<char>)
    requires
        is_absolute(p),
    ensures
        join(d, p) == p,
{
}

/// A file name without a dot, or with only a leading one, has no extension.
/// An extension is the end of its file name behind a dot, and holds no dot.
pub proof fn extension_ends_the_name(p: Seq<char>)
    ensures
        match extension(p) {
            Some(e) => file_name(p) matches Some(f) && f.len() > e.len() + 1 && f[f.len() - e.len()
                - 1] == '.' && f.skip(f.len() - e.len()) == e && !e.contains('.'),
            None => file_name(p) matches Some(f) ==> forall|i: int|
                0 < i < f.len() ==> #[trigger] f[i] != '.',
        },
{
    if let Some(f) = file_name(p) {
        last_dot_is_last(f);
        if let Some(d) = last_dot(f) {
            let e = f.skip(d as int + 1);
            if e.contains('.') {
                let k = choose|k: int| 0 <= k < e.len() && e[k] == '.';
                assert(f[d + 1 + k] == '.');
            }
        }
    }
}

proof fn last_dot_is_last(s: Seq<char>)
    ensures
        match last_dot(s) {
            Some(d) => d < s.len() && s[d as int] == '.' && forall|i: int|
                d < i < s.len() ==> #[trigger] s[i] != '.',
            None => forall|i: int| 0 <= i < s.len() ==> #[trigger] s[i] != '.',
        },
    decreases s.len(),
{
    if s.len() > 0 && s.last() != '.' {
        last_dot_is_last(s.drop_last());
        assert forall|i: int| 0 <= i < s.len() - 1 implies s.drop_last()[i] == #[trigger] s[i] by {}
    }
}

/// Paths with a name are the same if the name is and what it stands in is. An
/// absolute path is never the same as a relative one.
pub proof fn same_paths_have_the_same_parts(d: Seq<char>, e: Seq<char>, m: Seq<char>, n: Seq<char>)
    requires
        is_name(m),
        is_name(n),
        d.len() > 0,
        e.len() > 0,
    ensures
        same_path(join(d, m), join(e, n)) <==> same_path(d, e) && m == n,
        same_path(d, e) ==> is_absolute(d) == is_absolute(e) && parts(d) == parts(e),
        same_path(d, d),
        same_path(d, e) == same_path(e, d),
{
    joined_name_comes_last(d, m);
    joined_name_comes_last(e, n);
    let (a, b) = (parts(d).push(m), parts(e).push(n));
    if a == b {
        assert(a.drop_last() =~= parts(d));
        assert(b.drop_last() =~= parts(e));
        assert(a.last() == m && b.last() == n);
    }
}

} // verus!
