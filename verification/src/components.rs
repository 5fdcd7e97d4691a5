//! Components of Unix paths (`Path::components`) and the root-relative,
//! `/`-separated form of a path below a root.
use vstd::prelude::*;

use crate::text::{chars_of, push_char, seq_eq};

verus! {

// ---------------------------------------------------------------------------
// Components and relative paths
// ---------------------------------------------------------------------------

/// The texts between the `/` separators of `s` (always at least one).
pub open spec fn split_slash(s: Seq<char>) -> Seq<Seq<char>>
    decreases s.len(),
{
    if s.len() == 0 {
        seq![Seq::empty()]
    } else {
        let r = split_slash(s.drop_last());
        if s.last() == '/' {
            r.push(Seq::empty())
        } else {
            r.update(r.len() - 1, r.last().push(s.last()))
        }
    }
}

pub proof fn lemma_split_slash_len(s: Seq<char>)
    ensures
        split_slash(s).len() >= 1,
    decreases s.len(),
{
    if s.len() > 0 {
        lemma_split_slash_len(s.drop_last());
    }
}

/// A segment that stays a component: neither empty nor `.`.
pub open spec fn kept_segment() -> spec_fn(Seq<char>) -> bool {
    |c: Seq<char>| c.len() > 0 && c != seq!['.']
}

/// `Path::components` of a Unix path, each component by its text: the root
/// as `/`, a leading current-directory marker as `.`, parents as `..`, and
/// the other names as themselves. Empty segments and inner `.` segments are
/// normalized away.
pub open spec fn path_components(s: Seq<char>) -> Seq<Seq<char>> {
    let segs = split_slash(s);
    if s.len() > 0 && s[0] == '/' {
        seq![seq!['/']] + segs.filter(kept_segment())
    } else if segs[0] == seq!['.'] {
        seq![seq!['.']] + segs.drop_first().filter(kept_segment())
    } else {
        segs.filter(kept_segment())
    }
}

/// A component that names an entry (not the root, `.` or `..`).
pub open spec fn normal_component() -> spec_fn(Seq<char>) -> bool {
    |c: Seq<char>| c != seq!['/'] && c != seq!['.'] && c != seq!['.', '.']
}

/// `parts` joined with `/`.
pub open spec fn join_slash(parts: Seq<Seq<char>>) -> Seq<char>
    decreases parts.len(),
{
    if parts.len() == 0 {
        Seq::empty()
    } else if parts.len() == 1 {
        parts[0]
    } else {
        join_slash(parts.drop_last()) + seq!['/'] + parts.last()
    }
}

/// The root-relative wire form of `path`: its components after those of
/// `root` (all of them when `root` is no component prefix), keeping the
/// names only, joined with `/`.
pub open spec fn rel_path_spec(root: Seq<char>, path: Seq<char>) -> Seq<char> {
    let pc = path_components(path);
    let rc = path_components(root);
    let rest = if rc.len() <= pc.len() && pc.take(rc.len() as int) == rc {
        pc.skip(rc.len() as int)
    } else {
        pc
    };
    join_slash(rest.filter(normal_component()))
}

/// The `/`-separated segments of `v`.
fn split_segments(v: &Vec<char>) -> (r: Vec<Vec<char>>)
    ensures
        r@.map_values(|x: Vec<char>| x@) == split_slash(v@),
{
    let mut r: Vec<Vec<char>> = Vec::new();
    r.push(Vec::new());
    let mut i: usize = 0;
    proof {
        assert(v@.take(0) =~= Seq::<char>::empty());
        assert(r@.map_values(|x: Vec<char>| x@) =~= split_slash(v@.take(0)));
    }
    while i < v.len()
        invariant
            i <= v.len(),
            r@.len() >= 1,
            r@.map_values(|x: Vec<char>| x@) == split_slash(v@.take(i as int)),
        decreases v.len() - i,
    {
        let c = v[i];
        let ghost before = r@.map_values(|x: Vec<char>| x@);
        proof {
            assert(v@.take(i + 1).drop_last() =~= v@.take(i as int));
            assert(v@.take(i + 1).last() == c);
        }
        if c == '/' {
            r.push(Vec::new());
            assert(r@.map_values(|x: Vec<char>| x@) =~= before.push(Seq::empty()));
        } else {
            let k = r.len() - 1;
            let mut last = r.pop().unwrap();
            last.push(c);
            r.push(last);
            assert(r@.map_values(|x: Vec<char>| x@) =~= before.update(
                k as int,
                before.last().push(c),
            ));
        }
        i += 1;
    }
    assert(v@.take(v.len() as int) =~= v@);
    r
}

/// Keeps the segments of `segs[from..]` that are neither empty nor `.`.
fn keep_segments(segs: &Vec<Vec<char>>, from: usize) -> (r: Vec<Vec<char>>)
    requires
        from <= segs.len(),
    ensures
        r@.map_values(|x: Vec<char>| x@) == segs@.map_values(|x: Vec<char>| x@).skip(
            from as int,
        ).filter(kept_segment()),
{
    let ghost all = segs@.map_values(|x: Vec<char>| x@).skip(from as int);
    let mut r: Vec<Vec<char>> = Vec::new();
    let mut i = from;
    proof {
        assert(all.take(0) =~= Seq::<Seq<char>>::empty());
        reveal_with_fuel(Seq::filter, 1);
        assert(r@.map_values(|x: Vec<char>| x@) =~= all.take(0).filter(kept_segment()));
    }
    while i < segs.len()
        invariant
            from <= i <= segs.len(),
            all == segs@.map_values(|x: Vec<char>| x@).skip(from as int),
            r@.map_values(|x: Vec<char>| x@) == all.take(i - from).filter(kept_segment()),
        decreases segs.len() - i,
    {
        let ghost before = r@.map_values(|x: Vec<char>| x@);
        proof {
            assert(all.take(i - from + 1).drop_last() =~= all.take(i - from));
            assert(all.take(i - from + 1).last() == segs@[i as int]@);
            reveal_with_fuel(Seq::filter, 1);
        }
        let keep = segs[i].len() > 0 && !(segs[i].len() == 1 && segs[i][0] == '.');
        proof {
            let c = segs@[i as int]@;
            if c == seq!['.'] {
                assert(c.len() == 1 && c[0] == '.');
            }
            if c.len() == 1 && c[0] == '.' {
                assert(c =~= seq!['.']);
            }
        }
        if keep {
            r.push(segs[i].clone());
            assert(r@.map_values(|x: Vec<char>| x@) =~= before.push(segs@[i as int]@));
        }
        i += 1;
    }
    assert(all.take(segs.len() - from) =~= all);
    r
}

/// `Path::components` of a Unix path (see [`path_components`]).
pub(crate) fn components_of(path: &str) -> (r: Vec<Vec<char>>)
    ensures
        r@.map_values(|x: Vec<char>| x@) == path_components(path@),
{
    let v = chars_of(path);
    let segs = split_segments(&v);
    proof {
        lemma_split_slash_len(v@);
    }
    let ghost sv = segs@.map_values(|x: Vec<char>| x@);
    assert(sv.skip(0) =~= sv);
    if v.len() > 0 && v[0] == '/' {
        let rest = keep_segments(&segs, 0);
        let mut r: Vec<Vec<char>> = Vec::new();
        let mut c: Vec<char> = Vec::new();
        c.push('/');
        assert(c@ =~= seq!['/']);
        r.push(c);
        let mut rest = rest;
        r.append(&mut rest);
        assert(r@.map_values(|x: Vec<char>| x@) =~= seq![seq!['/']] + sv.filter(kept_segment()));
        r
    } else if segs[0].len() == 1 && segs[0][0] == '.' {
        assert(sv[0] =~= seq!['.']);
        let mut rest = keep_segments(&segs, 1);
        let mut r: Vec<Vec<char>> = Vec::new();
        let mut c: Vec<char> = Vec::new();
        c.push('.');
        assert(c@ =~= seq!['.']);
        r.push(c);
        r.append(&mut rest);
        assert(sv.skip(1) =~= sv.drop_first());
        assert(r@.map_values(|x: Vec<char>| x@) =~= seq![seq!['.']] + sv.drop_first().filter(
            kept_segment(),
        ));
        r
    } else {
        proof {
            if sv[0] == seq!['.'] {
                assert(sv[0].len() == 1 && sv[0][0] == '.');
            }
        }
        keep_segments(&segs, 0)
    }
}

/// The root-relative, `/`-separated wire form of `path` (see
/// [`rel_path_spec`]).
pub fn rel_path(root: &str, path: &str) -> (r: String)
    ensures
        r@ == rel_path_spec(root@, path@),
{
    let pc = components_of(path);
    let rc = components_of(root);
    let ghost pv = pc@.map_values(|x: Vec<char>| x@);
    let ghost rv = rc@.map_values(|x: Vec<char>| x@);
    let mut is_prefix = rc.len() <= pc.len();
    let mut i: usize = 0;
    while is_prefix && i < rc.len()
        invariant
            i <= rc.len(),
            is_prefix ==> rc.len() <= pc.len() && forall|j: int| 0 <= j < i ==> pv[j] == rv[j],
            !is_prefix ==> !(rv.len() <= pv.len() && pv.take(rv.len() as int) == rv),
            pv == pc@.map_values(|x: Vec<char>| x@),
            rv == rc@.map_values(|x: Vec<char>| x@),
        decreases rc.len() - i,
    {
        if !seq_eq(&pc[i], &rc[i]) {
            is_prefix = false;
            proof {
                if rv.len() <= pv.len() && pv.take(rv.len() as int) == rv {
                    assert(pv.take(rv.len() as int)[i as int] == pv[i as int]);
                }
            }
        }
        i += 1;
    }
    let start: usize = if is_prefix {
        assert(pv.take(rv.len() as int) =~= rv);
        rc.len()
    } else {
        0
    };
    let ghost rest = pv.skip(start as int);
    assert(start == 0 ==> rest =~= pv);
    let ghost parts = rest.filter(normal_component());
    let mut out = String::new();
    let mut count: usize = 0;
    let mut k = start;
    proof {
        assert(rest.take(0) =~= Seq::<Seq<char>>::empty());
        reveal_with_fuel(Seq::filter, 1);
    }
    while k < pc.len()
        invariant
            start <= k <= pc.len(),
            rest == pv.skip(start as int),
            pv == pc@.map_values(|x: Vec<char>| x@),
            count == rest.take(k - start).filter(normal_component()).len(),
            out@ == join_slash(rest.take(k - start).filter(normal_component())),
        decreases pc.len() - k,
    {
        let ghost before = rest.take(k - start).filter(normal_component());
        proof {
            assert(rest.take(k - start + 1).drop_last() =~= rest.take(k - start));
            assert(rest.take(k - start + 1).last() == pv[k as int]);
            reveal_with_fuel(Seq::filter, 1);
        }
        let c = &pc[k];
        let special = (c.len() == 1 && (c[0] == '/' || c[0] == '.')) || (c.len() == 2 && c[0] == '.'
            && c[1] == '.');
        proof {
            let cv = c@;
            if cv == seq!['/'] || cv == seq!['.'] {
                assert(cv.len() == 1 && (cv[0] == '/' || cv[0] == '.'));
            }
            if cv == seq!['.', '.'] {
                assert(cv.len() == 2 && cv[0] == '.' && cv[1] == '.');
            }
            if cv.len() == 1 && cv[0] == '/' {
                assert(cv =~= seq!['/']);
            }
            if cv.len() == 1 && cv[0] == '.' {
                assert(cv =~= seq!['.']);
            }
            if cv.len() == 2 && cv[0] == '.' && cv[1] == '.' {
                assert(cv =~= seq!['.', '.']);
            }
        }
        if !special {
            if count > 0 {
                push_char(&mut out, '/');
            }
            let mut j: usize = 0;
            let ghost base = out@;
            while j < c.len()
                invariant
                    j <= c.len(),
                    out@ == base + c@.take(j as int),
                decreases c.len() - j,
            {
                push_char(&mut out, c[j]);
                assert(c@.take(j + 1) =~= c@.take(j as int).push(c@[j as int]));
                j += 1;
            }
            assert(c@.take(c.len() as int) =~= c@);
            proof {
                let after = before.push(c@);
                assert(after.drop_last() =~= before);
                if count == 0 {
                    assert(before.len() == 0);
                    assert(base =~= Seq::<char>::empty());
                    assert(out@ =~= c@);
                } else {
                    assert(out@ =~= join_slash(before) + seq!['/'] + c@);
                }
            }
            count += 1;
        }
        k += 1;
    }
    assert(rest.take(pc.len() - start) =~= rest);
    out
}

/// Whether the components of `base` begin the components of `path`
/// (`Path::starts_with`).
pub open spec fn path_starts_with(path: Seq<char>, base: Seq<char>) -> bool {
    let pc = path_components(path);
    let bc = path_components(base);
    bc.len() <= pc.len() && pc.take(bc.len() as int) == bc
}

/// Whether the first `n` components of `a` and `b` agree.
fn prefix_agrees(a: &Vec<Vec<char>>, b: &Vec<Vec<char>>, n: usize) -> (r: bool)
    requires
        n <= a.len(),
        n <= b.len(),
    ensures
        r == (a@.map_values(|x: Vec<char>| x@).take(n as int) == b@.map_values(|x: Vec<char>| x@).take(
            n as int,
        )),
{
    let ghost av = a@.map_values(|x: Vec<char>| x@);
    let ghost bv = b@.map_values(|x: Vec<char>| x@);
    let mut i: usize = 0;
    while i < n
        invariant
            i <= n,
            n <= a.len(),
            n <= b.len(),
            av == a@.map_values(|x: Vec<char>| x@),
            bv == b@.map_values(|x: Vec<char>| x@),
            forall|j: int| 0 <= j < i ==> av[j] == bv[j],
        decreases n - i,
    {
        if !seq_eq(&a[i], &b[i]) {
            proof {
                if av.take(n as int) == bv.take(n as int) {
                    assert(av.take(n as int)[i as int] == bv.take(n as int)[i as int]);
                }
            }
            return false;
        }
        i += 1;
    }
    assert(av.take(n as int) =~= bv.take(n as int));
    true
}

/// `Path::starts_with` on Unix paths.
pub fn starts_with_path(path: &str, base: &str) -> (r: bool)
    ensures
        r == path_starts_with(path@, base@),
{
    let pc = components_of(path);
    let bc = components_of(base);
    if bc.len() > pc.len() {
        return false;
    }
    let r = prefix_agrees(&pc, &bc, bc.len());
    proof {
        let bv = bc@.map_values(|x: Vec<char>| x@);
        assert(bv.take(bc.len() as int) =~= bv);
    }
    r
}

/// Whether two Unix paths are equal component by component (`Path`'s
/// `==`).
pub fn same_path(a: &str, b: &str) -> (r: bool)
    ensures
        r == (path_components(a@) == path_components(b@)),
{
    let ac = components_of(a);
    let bc = components_of(b);
    if ac.len() != bc.len() {
        return false;
    }
    let r = prefix_agrees(&ac, &bc, ac.len());
    proof {
        let av = ac@.map_values(|x: Vec<char>| x@);
        let bv = bc@.map_values(|x: Vec<char>| x@);
        assert(av.take(ac.len() as int) =~= av);
        assert(bv.take(bc.len() as int) =~= bv);
    }
    r
}

/// Whether a component of `path` is `..`.
pub open spec fn has_parent_component(path: Seq<char>) -> bool {
    path_components(path).contains(seq!['.', '.'])
}

/// Whether a component of `path` is `..`.
pub fn mentions_parent(path: &str) -> (r: bool)
    ensures
        r == has_parent_component(path@),
{
    let pc = components_of(path);
    let ghost pv = pc@.map_values(|x: Vec<char>| x@);
    assert(pv == path_components(path@));
    let mut i: usize = 0;
    while i < pc.len()
        invariant
            i <= pc.len(),
            pv == pc@.map_values(|x: Vec<char>| x@),
            pv == path_components(path@),
            forall|j: int| 0 <= j < i ==> pv[j] != seq!['.', '.'],
        decreases pc.len() - i,
    {
        let c = &pc[i];
        if c.len() == 2 && c[0] == '.' && c[1] == '.' {
            assert(pv[i as int] =~= seq!['.', '.']);
            assert(pv.contains(seq!['.', '.']));
            return true;
        }
        proof {
            if pv[i as int] == seq!['.', '.'] {
                assert(c@.len() == 2 && c@[0] == '.' && c@[1] == '.');
            }
        }
        i += 1;
    }
    assert(!pv.contains(seq!['.', '.']));
    false
}

/// The number of components of `path`.
pub fn component_count(path: &str) -> (n: usize)
    ensures
        n == path_components(path@).len(),
{
    components_of(path).len()
}

/// The part of `path` after `base`, its components joined with `/`, when
/// `path` starts with `base` (`Path::strip_prefix`).
pub open spec fn stripped_spec(path: Seq<char>, base: Seq<char>) -> Option<Seq<char>> {
    if path_starts_with(path, base) {
        Some(join_slash(path_components(path).skip(path_components(base).len() as int)))
    } else {
        None
    }
}

/// `path` below `base` (see [`stripped_spec`]).
pub fn strip_base(path: &str, base: &str) -> (r: Option<String>)
    ensures
        match r {
            Some(s) => stripped_spec(path@, base@) == Some(s@),
            None => stripped_spec(path@, base@) is None,
        },
{
    if !starts_with_path(path, base) {
        return None;
    }
    let pc = components_of(path);
    let bc = components_of(base);
    let ghost pv = pc@.map_values(|x: Vec<char>| x@);
    let ghost rest = pv.skip(bc.len() as int);
    let mut out = String::new();
    let mut k = bc.len();
    proof {
        assert(rest.take(0) =~= Seq::<Seq<char>>::empty());
    }
    while k < pc.len()
        invariant
            bc.len() <= k <= pc.len(),
            pv == pc@.map_values(|x: Vec<char>| x@),
            rest == pv.skip(bc.len() as int),
            out@ == join_slash(rest.take(k - bc.len())),
        decreases pc.len() - k,
    {
        let ghost before = rest.take(k - bc.len());
        let c = &pc[k];
        if k > bc.len() {
            push_char(&mut out, '/');
        }
        let ghost base_out = out@;
        let mut j: usize = 0;
        while j < c.len()
            invariant
                j <= c.len(),
                out@ == base_out + c@.take(j as int),
            decreases c.len() - j,
        {
            push_char(&mut out, c[j]);
            assert(c@.take(j + 1) =~= c@.take(j as int).push(c@[j as int]));
            j += 1;
        }
        proof {
            assert(c@.take(c.len() as int) =~= c@);
            let after = rest.take(k - bc.len() + 1);
            assert(after.drop_last() =~= before);
            assert(after.last() == c@);
            if k == bc.len() {
                assert(before.len() == 0);
                assert(out@ =~= c@);
            } else {
                assert(out@ =~= join_slash(before) + seq!['/'] + c@);
            }
        }
        k += 1;
    }
    assert(rest.take(pc.len() - bc.len()) =~= rest);
    Some(out)
}

} // verus!
