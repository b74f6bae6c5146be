//! Paths as text, with the separator `/` (the rules `std::path` follows on Unix).
use crate::text::{
    chars_equal, from_chars, index_of, lemma_index_of, lemma_index_of_bound, slice_chars, split,
    split_chars, starts_with, to_chars, views,
};
use vstd::prelude::*;

verus! {

/// Whether `p` is an absolute path.
pub open spec fn is_absolute(p: Seq<char>) -> bool {
    p.len() > 0 && p[0] == '/'
}

/// `base.join(part)`: an absolute `part` replaces `base`; otherwise the two are
/// put together with one separator between them.
pub open spec fn join(base: Seq<char>, part: Seq<char>) -> Seq<char> {
    if is_absolute(part) {
        part
    } else if base.len() == 0 {
        part
    } else if base.last() == '/' {
        base + part
    } else {
        base + seq!['/'] + part
    }
}

/// `path` written relative to `base` when it lies below it, else `path` itself.
pub open spec fn relative_to(path: Seq<char>, base: Seq<char>) -> Seq<char> {
    if base.len() > 0 && base.last() == '/' && starts_with(path, base) {
        path.skip(base.len() as int)
    } else if starts_with(path, base + seq!['/']) {
        path.skip(base.len() as int + 1)
    } else {
        path
    }
}

pub fn join_chars(base: &[char], part: &[char]) -> (r: Vec<char>)
    ensures
        r@ == join(base@, part@),
{
    let mut out: Vec<char> = Vec::new();
    if part.len() > 0 && part[0] == '/' {
    } else if base.len() == 0 {
    } else {
        let mut i: usize = 0;
        while i < base.len()
            invariant
                i <= base@.len(),
                out@ == base@.take(i as int),
            decreases base@.len() - i,
        {
            out.push(base[i]);
            assert(base@.take(i as int + 1) =~= base@.take(i as int).push(base@[i as int]));
            i = i + 1;
        }
        assert(base@.take(base@.len() as int) =~= base@);
        if base[base.len() - 1] != '/' {
            out.push('/');
        }
    }
    let ghost pre = out@;
    let mut j: usize = 0;
    while j < part.len()
        invariant
            j <= part@.len(),
            out@ == pre + part@.take(j as int),
        decreases part@.len() - j,
    {
        out.push(part[j]);
        assert(part@.take(j as int + 1) =~= part@.take(j as int).push(part@[j as int]));
        j = j + 1;
    }
    assert(part@.take(part@.len() as int) =~= part@);
    assert(out@ =~= join(base@, part@));
    out
}

/// `Path::new(base).join(part)`, as text.
pub fn join_path(base: &str, part: &str) -> (r: String)
    ensures
        r@ == join(base@, part@),
{
    let b = to_chars(base);
    let p = to_chars(part);
    let r = join_chars(&b, &p);
    from_chars(&r)
}

pub fn relative_to_chars(path: &[char], base: &[char]) -> (r: Vec<char>)
    ensures
        r@ == relative_to(path@, base@),
{
    let n: usize = base.len();
    let mut prefix_ok: bool = n <= path.len();
    let mut i: usize = 0;
    while prefix_ok && i < n
        invariant
            n == base@.len(),
            i <= n,
            prefix_ok ==> n <= path@.len(),
            prefix_ok ==> forall|j: int| 0 <= j < i ==> path@[j] == base@[j],
            !prefix_ok ==> !starts_with(path@, base@),
        decreases n - i,
    {
        if path[i] != base[i] {
            prefix_ok = false;
            assert(path@.take(n as int)[i as int] != base@[i as int]);
            i = n;
        } else {
            i = i + 1;
        }
    }
    if prefix_ok {
        assert(path@.take(n as int) =~= base@);
    }
    assert(prefix_ok == starts_with(path@, base@));
    let mut out: Vec<char> = Vec::new();
    let start: usize = if n > 0 && base[n - 1] == '/' && prefix_ok {
        n
    } else if prefix_ok && n < path.len() && path[n] == '/' {
        assert(path@.take(n as int + 1) =~= base@ + seq!['/']);
        n + 1
    } else {
        proof {
            if starts_with(path@, base@ + seq!['/']) {
                assert(path@.take(n as int) =~= (base@ + seq!['/']).take(n as int));
                assert((base@ + seq!['/']).take(n as int) =~= base@);
                assert(path@[n as int] == path@.take(n as int + 1)[n as int]);
            }
        }
        0
    };
    let mut k: usize = start;
    while k < path.len()
        invariant
            start <= k <= path@.len(),
            out@ == path@.subrange(start as int, k as int),
        decreases path@.len() - k,
    {
        out.push(path[k]);
        assert(path@.subrange(start as int, k as int + 1) =~= path@.subrange(
            start as int,
            k as int,
        ).push(path@[k as int]));
        k = k + 1;
    }
    assert(out@ =~= path@.skip(start as int));
    if start == 0 {
        assert(path@.skip(0) =~= path@);
    }
    out
}

/// The pieces of a path that name something: empty pieces (from repeated or
/// trailing separators) and `.` are dropped, `..` is kept.
pub open spec fn named_pieces(xs: Seq<Seq<char>>) -> Seq<Seq<char>>
    decreases xs.len(),
{
    if xs.len() == 0 {
        seq![]
    } else if xs.last().len() == 0 || xs.last() == seq!['.'] {
        named_pieces(xs.drop_last())
    } else {
        named_pieces(xs.drop_last()).push(xs.last())
    }
}

/// The components of path `p` as `Path::components` yields them: whether it
/// starts at the root, whether a relative path starts with `.`, and the named
/// pieces that follow.
pub open spec fn path_components(p: Seq<char>) -> (bool, bool, Seq<Seq<char>>) {
    (
        is_absolute(p),
        !is_absolute(p) && (p == seq!['.'] || starts_with(p, seq!['.', '/'])),
        named_pieces(split(p, '/')),
    )
}

/// Two paths are equal as `Path`s: they have the same components.
pub open spec fn same_path(a: Seq<char>, b: Seq<char>) -> bool {
    path_components(a) == path_components(b)
}

proof fn lemma_named_pieces_append(xs: Seq<Seq<char>>, ys: Seq<Seq<char>>)
    ensures
        named_pieces(xs + ys) == named_pieces(xs) + named_pieces(ys),
    decreases ys.len(),
{
    if ys.len() == 0 {
        assert(xs + ys =~= xs);
        assert(named_pieces(xs) + named_pieces(ys) =~= named_pieces(xs));
    } else {
        assert((xs + ys).drop_last() =~= xs + ys.drop_last());
        assert((xs + ys).last() == ys.last());
        lemma_named_pieces_append(xs, ys.drop_last());
        if !(ys.last().len() == 0 || ys.last() == seq!['.']) {
            assert(named_pieces(xs) + named_pieces(ys.drop_last()).push(ys.last()) =~= (
            named_pieces(xs) + named_pieces(ys.drop_last())).push(ys.last()));
        }
    }
}

/// Splitting at a separator put between two texts splits each of them.
proof fn lemma_split_at_separator(x: Seq<char>, y: Seq<char>)
    ensures
        split(x + seq!['/'] + y, '/') == split(x, '/') + split(y, '/'),
    decreases x.len(),
{
    let s = x + seq!['/'] + y;
    lemma_index_of_bound(x, '/');
    let k = index_of(x, '/');
    if k < x.len() {
        assert forall|j: int| 0 <= j < k implies s[j] != '/' by {
            assert(s[j] == x[j]);
        }
        assert(s[k as int] == x[k as int]);
        lemma_index_of(s, '/', k as int);
        assert(s.take(k as int) =~= x.take(k as int));
        assert(s.skip(k as int + 1) =~= x.skip(k as int + 1) + seq!['/'] + y);
        lemma_split_at_separator(x.skip(k as int + 1), y);
        assert(split(x, '/') == seq![x.take(k as int)] + split(x.skip(k as int + 1), '/'));
        assert(split(s, '/') =~= split(x, '/') + split(y, '/'));
    } else {
        assert forall|j: int| 0 <= j < x.len() implies s[j] != '/' by {
            assert(s[j] == x[j]);
        }
        lemma_index_of(s, '/', x.len() as int);
        assert(s.take(x.len() as int) =~= x);
        assert(s.skip(x.len() as int + 1) =~= y);
        assert(split(x, '/') == seq![x]);
        assert(split(s, '/') =~= split(x, '/') + split(y, '/'));
    }
}

/// A text without separators is one piece.
proof fn lemma_split_no_separator(n: Seq<char>)
    requires
        !n.contains('/'),
    ensures
        split(n, '/') == seq![n],
{
    lemma_index_of_bound(n, '/');
    if index_of(n, '/') < n.len() {
        assert(n.contains('/'));
    }
}

/// Joining a name (no separator in it) to a base adds that name's piece, if
/// it names something, to the pieces of the base.
pub proof fn lemma_join_named_pieces(base: Seq<char>, n: Seq<char>)
    requires
        n.len() > 0,
        !n.contains('/'),
    ensures
        named_pieces(split(join(base, n), '/')) == named_pieces(split(base, '/')) + named_pieces(
            seq![n],
        ),
{
    lemma_split_no_separator(n);
    assert(!is_absolute(n)) by {
        if is_absolute(n) {
            assert(n[0] == '/');
        }
    }
    if base.len() == 0 {
        assert(base =~= Seq::<char>::empty());
        assert(split(base, '/') =~= seq![Seq::<char>::empty()]);
        assert(named_pieces(seq![Seq::<char>::empty()]) =~= Seq::<Seq<char>>::empty()) by {
            assert(seq![Seq::<char>::empty()].drop_last() =~= Seq::<Seq<char>>::empty());
            assert(named_pieces(Seq::<Seq<char>>::empty()) =~= Seq::<Seq<char>>::empty());
        }
        assert(Seq::<Seq<char>>::empty() + named_pieces(seq![n]) =~= named_pieces(seq![n]));
    } else if base.last() == '/' {
        let b = base.drop_last();
        assert(base =~= b + seq!['/'] + Seq::<char>::empty());
        assert(base + n =~= b + seq!['/'] + n);
        lemma_split_at_separator(b, n);
        lemma_split_at_separator(b, Seq::<char>::empty());
        lemma_split_no_separator(Seq::<char>::empty());
        lemma_named_pieces_append(split(b, '/'), seq![n]);
        lemma_named_pieces_append(split(b, '/'), seq![Seq::<char>::empty()]);
        assert(named_pieces(seq![Seq::<char>::empty()]) =~= Seq::<Seq<char>>::empty()) by {
            assert(seq![Seq::<char>::empty()].drop_last() =~= Seq::<Seq<char>>::empty());
            assert(named_pieces(Seq::<Seq<char>>::empty()) =~= Seq::<Seq<char>>::empty());
        }
        assert(named_pieces(split(b, '/')) + Seq::<Seq<char>>::empty() =~= named_pieces(
            split(b, '/'),
        ));
    } else {
        lemma_split_at_separator(base, n);
        lemma_named_pieces_append(split(base, '/'), seq![n]);
    }
}

fn is_named_piece(x: &[char]) -> (b: bool)
    ensures
        b == !(x@.len() == 0 || x@ == seq!['.']),
{
    if x.len() == 0 {
        false
    } else if x.len() == 1 && x[0] == '.' {
        assert(x@ =~= seq!['.']);
        false
    } else {
        true
    }
}

fn named_pieces_of(p: &[char]) -> (r: Vec<Vec<char>>)
    ensures
        views(r@) == named_pieces(split(p@, '/')),
{
    let parts = split_chars(p, '/');
    let ghost ps = views(parts@);
    let mut r: Vec<Vec<char>> = Vec::new();
    let mut i: usize = 0;
    assert(ps.take(0) =~= Seq::<Seq<char>>::empty());
    assert(views(r@) =~= Seq::<Seq<char>>::empty());
    while i < parts.len()
        invariant
            i <= parts@.len(),
            ps == views(parts@),
            views(r@) == named_pieces(ps.take(i as int)),
        decreases parts@.len() - i,
    {
        assert(ps.take(i as int + 1).drop_last() =~= ps.take(i as int));
        assert(ps.take(i as int + 1).last() == parts@[i as int]@);
        if is_named_piece(parts[i].as_slice()) {
            let piece = slice_chars(parts[i].as_slice(), 0, parts[i].len());
            assert(piece@ =~= parts@[i as int]@);
            let ghost old_r = r@;
            r.push(piece);
            assert(views(r@) =~= views(old_r).push(piece@));
        }
        i = i + 1;
    }
    assert(ps.take(parts@.len() as int) =~= ps);
    r
}

fn starts_at_dot(p: &[char]) -> (b: bool)
    ensures
        b == (p@ == seq!['.'] || starts_with(p@, seq!['.', '/'])),
{
    if p.len() == 1 && p[0] == '.' {
        assert(p@ =~= seq!['.']);
        true
    } else if p.len() >= 2 && p[0] == '.' && p[1] == '/' {
        assert(p@.take(2) =~= seq!['.', '/']);
        true
    } else {
        proof {
            if starts_with(p@, seq!['.', '/']) {
                assert(p@[0] == p@.take(2)[0]);
                assert(p@[1] == p@.take(2)[1]);
            }
        }
        false
    }
}

/// Whether `a` and `b` are the same path, compared component by component.
pub fn same_path_chars(a: &[char], b: &[char]) -> (r: bool)
    ensures
        r == same_path(a@, b@),
{
    let ra = a.len() > 0 && a[0] == '/';
    let rb = b.len() > 0 && b[0] == '/';
    if ra != rb {
        return false;
    }
    let da = !ra && starts_at_dot(a);
    let db = !rb && starts_at_dot(b);
    if da != db {
        return false;
    }
    let pa = named_pieces_of(a);
    let pb = named_pieces_of(b);
    if pa.len() != pb.len() {
        assert(views(pa@).len() != views(pb@).len());
        return false;
    }
    let mut i: usize = 0;
    while i < pa.len()
        invariant
            i <= pa@.len(),
            pa@.len() == pb@.len(),
            views(pa@) == named_pieces(split(a@, '/')),
            views(pb@) == named_pieces(split(b@, '/')),
            path_components(a@).0 == path_components(b@).0,
            path_components(a@).1 == path_components(b@).1,
            forall|j: int| 0 <= j < i ==> pa@[j]@ == pb@[j]@,
        decreases pa@.len() - i,
    {
        if !chars_equal(pa[i].as_slice(), pb[i].as_slice()) {
            assert(views(pa@)[i as int] != views(pb@)[i as int]);
            return false;
        }
        i = i + 1;
    }
    assert(views(pa@) =~= views(pb@));
    true
}

} // verus!
