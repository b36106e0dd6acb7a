//! Unix path arithmetic as `std::path` performs it: joining, and the
//! component split that decides whether a relative path can escape the
//! directory it is joined to.
//!
//! A path's components are modelled as strings: the root is `"/"`, a
//! leading current-directory marker is `"."`, a parent reference is `".."`
//! and every other component is its own name. Names never contain `/` and
//! are never empty, `"."` or `".."`, so this encoding is faithful.

use vstd::prelude::*;
use crate::text::{chars_eq, chars_of};
use vstd::string::StringExecFns;

verus! {

/// `p` split on every `/`, empty pieces included.
pub open spec fn segments(p: Seq<char>) -> Seq<Seq<char>>
    decreases p.len(),
{
    if p.len() == 0 {
        seq![Seq::<char>::empty()]
    } else {
        let s = segments(p.drop_last());
        if p.last() == '/' {
            s.push(Seq::<char>::empty())
        } else {
            s.update(s.len() - 1, s.last().push(p.last()))
        }
    }
}

/// The component a segment contributes after the first: nothing for an
/// empty or `.` segment, the segment itself otherwise.
pub open spec fn segment_component(seg: Seq<char>) -> Seq<Seq<char>> {
    if seg.len() == 0 || seg == seq!['.'] {
        seq![]
    } else {
        seq![seg]
    }
}

/// Components contributed by a list of segments.
pub open spec fn segment_components(segs: Seq<Seq<char>>) -> Seq<Seq<char>>
    decreases segs.len(),
{
    if segs.len() == 0 {
        seq![]
    } else {
        segment_components(segs.drop_last()) + segment_component(segs.last())
    }
}

/// Whether `p` is absolute.
pub open spec fn is_absolute(p: Seq<char>) -> bool {
    p.len() > 0 && p[0] == '/'
}

/// Whether `p` starts with a `.` component (`.` or `./...`).
pub open spec fn leading_cur_dir(p: Seq<char>) -> bool {
    p.len() > 0 && p[0] == '.' && (p.len() == 1 || p[1] == '/')
}

/// The components `Path::components` yields for `p` on Unix.
pub open spec fn components(p: Seq<char>) -> Seq<Seq<char>> {
    let root: Seq<Seq<char>> = if is_absolute(p) {
        seq![seq!['/']]
    } else {
        seq![]
    };
    let cur: Seq<Seq<char>> = if leading_cur_dir(p) {
        seq![seq!['.']]
    } else {
        seq![]
    };
    root + cur + segment_components(segments(p))
}

/// Whether a component is a plain name (`Component::Normal`).
pub open spec fn is_normal(c: Seq<char>) -> bool {
    c != seq!['/'] && c != seq!['.'] && c != seq!['.', '.']
}

/// Whether every component of `p` is a plain name: joined to a directory,
/// `p` names something inside it.
pub open spec fn all_normal(p: Seq<char>) -> bool {
    forall|i: int| 0 <= i < components(p).len() ==> is_normal(#[trigger] components(p)[i])
}

/// What `PathBuf::join` returns on Unix: `part` when it is absolute,
/// otherwise `base` and `part` with one separator between them.
pub open spec fn join_spec(base: Seq<char>, part: Seq<char>) -> Seq<char> {
    if is_absolute(part) {
        part
    } else if base.len() == 0 || base.last() == '/' {
        base + part
    } else {
        base + seq!['/'] + part
    }
}

/// The strings held by a list of character vectors.
pub open spec fn views(v: Seq<Vec<char>>) -> Seq<Seq<char>> {
    v.map_values(|x: Vec<char>| x@)
}

proof fn lemma_segments_push(p: Seq<char>, c: char)
    ensures
        segments(p.push(c)) == (if c == '/' {
            segments(p).push(Seq::<char>::empty())
        } else {
            segments(p).update(segments(p).len() - 1, segments(p).last().push(c))
        }),
{
    assert(p.push(c).drop_last() =~= p);
    assert(p.push(c).last() == c);
}

proof fn lemma_segments_nonempty(p: Seq<char>)
    ensures
        segments(p).len() >= 1,
    decreases p.len(),
{
    if p.len() > 0 {
        lemma_segments_nonempty(p.drop_last());
    }
}

/// The components of `p`, in order.
pub fn path_components(p: &str) -> (r: Vec<Vec<char>>)
    ensures
        views(r@) == components(p@),
{
    let v = chars_of(p);
    let n = v.len();
    let mut comps: Vec<Vec<char>> = Vec::new();
    let mut cur: Vec<char> = Vec::new();
    let ghost mut done: Seq<Seq<char>> = seq![];
    let ghost root: Seq<Seq<char>> = if is_absolute(p@) {
        seq![seq!['/']]
    } else {
        Seq::<Seq<char>>::empty()
    };
    let ghost curdir: Seq<Seq<char>> = if leading_cur_dir(p@) {
        seq![seq!['.']]
    } else {
        Seq::<Seq<char>>::empty()
    };
    if n > 0 && v[0] == '/' {
        let r: Vec<char> = vec!['/'];
        assert(r@ =~= seq!['/']);
        comps.push(r);
    }
    assert(views(comps@) =~= root);
    if n > 0 && v[0] == '.' && (n == 1 || v[1] == '/') {
        let d: Vec<char> = vec!['.'];
        assert(d@ =~= seq!['.']);
        let ghost before = views(comps@);
        comps.push(d);
        assert(views(comps@) =~= before.push(seq!['.']));
    }
    assert(views(comps@) =~= root + curdir);
    let ghost prefix: Seq<Seq<char>> = views(comps@);
    let mut i: usize = 0;
    assert(segments(v@.subrange(0, 0)) =~= done.push(cur@));
    assert(segment_components(done) =~= Seq::<Seq<char>>::empty());
    assert(v@.subrange(0, 0) =~= Seq::<char>::empty());
    while i < n
        invariant
            n == v@.len(),
            v@ == p@,
            i <= n,
            segments(v@.subrange(0, i as int)) == done.push(cur@),
            views(comps@) == prefix + segment_components(done),
            prefix == (if is_absolute(p@) {
                seq![seq!['/']]
            } else {
                Seq::<Seq<char>>::empty()
            }) + (if leading_cur_dir(p@) {
                seq![seq!['.']]
            } else {
                Seq::<Seq<char>>::empty()
            }),
        decreases n - i,
    {
        let c = v[i];
        let ghost pre = v@.subrange(0, i as int);
        assert(v@.subrange(0, i + 1).drop_last() =~= pre);
        if c == '/' {
            let seg = cur;
            cur = Vec::new();
            proof {
                assert(v@.subrange(0, i + 1) =~= pre.push(c));
                lemma_segments_push(pre, c);
                assert(segments(v@.subrange(0, i + 1)) == done.push(seg@).push(Seq::<char>::empty()));
            }
            let is_empty = seg.len() == 0;
            let is_dot = seg.len() == 1 && seg[0] == '.';
            let ghost old_done = done;
            proof {
                done = done.push(seg@);
                assert(done.drop_last() =~= old_done);
                if seg@ == seq!['.'] {
                    assert(is_dot);
                }
                if is_dot {
                    assert(seg@ =~= seq!['.']);
                }
            }
            if !is_empty && !is_dot {
                let ghost before = views(comps@);
                let ghost sv = seg@;
                assert(segment_component(sv) =~= seq![sv]);
                comps.push(seg);
                proof {
                    assert(views(comps@) =~= before.push(sv));
                    assert(views(comps@) =~= prefix + segment_components(done));
                }
            } else {
                proof {
                    assert(segment_component(seg@) =~= Seq::<Seq<char>>::empty());
                    assert(views(comps@) =~= prefix + segment_components(done));
                }
            }
            proof {
                assert(cur@ =~= Seq::<char>::empty());
                assert(segments(v@.subrange(0, i + 1)) =~= done.push(cur@));
            }
        } else {
            let ghost cur_before = cur@;
            cur.push(c);
            proof {
                assert(v@.subrange(0, i + 1) =~= pre.push(c));
                lemma_segments_push(pre, c);
                assert(segments(v@.subrange(0, i + 1)) =~= done.push(cur_before).update(
                    done.len() as int,
                    cur_before.push(c),
                ));
                assert(segments(v@.subrange(0, i + 1)) =~= done.push(cur@));
            }
        }
        i = i + 1;
    }
    let ghost old_done = done;
    let is_empty = cur.len() == 0;
    let is_dot = cur.len() == 1 && cur[0] == '.';
    proof {
        assert(v@.subrange(0, n as int) =~= p@);
        done = done.push(cur@);
        assert(done.drop_last() =~= old_done);
        if is_dot {
            assert(cur@ =~= seq!['.']);
        }
    }
    if !is_empty && !is_dot {
        let ghost before = views(comps@);
        let ghost sv = cur@;
        assert(segment_component(sv) =~= seq![sv]);
        comps.push(cur);
        proof {
            assert(views(comps@) =~= before.push(sv));
            assert(views(comps@) =~= prefix + segment_components(done));
        }
    } else {
        proof {
            assert(segment_component(done.last()) =~= Seq::<Seq<char>>::empty());
            assert(views(comps@) =~= prefix + segment_components(done));
        }
    }
    proof {
        assert(segments(p@) == done);
        assert(prefix + segment_components(done) =~= components(p@));
    }
    comps
}

/// `base` joined with `part`, as `Path::join` does on Unix.
pub fn path_join(base: &str, part: &str) -> (r: String)
    ensures
        r@ == join_spec(base@, part@),
{
    let b = chars_of(base);
    let q = chars_of(part);
    if q.len() > 0 && q[0] == '/' {
        return String::from_str(part);
    }
    let mut r = String::from_str(base);
    if !(b.len() == 0 || b[b.len() - 1] == '/') {
        r.append("/");
        proof {
            reveal_strlit("/");
        }
    }
    r.append(part);
    proof {
        if !(b@.len() == 0 || b@.last() == '/') {
            assert("/"@ =~= seq!['/']);
        }
    }
    r
}

/// Whether two paths name the same path: `Path`'s `==`, which compares
/// components, so `a//b`, `a/./b` and `a/b/` all equal `a/b`.
pub fn same_path(a: &str, b: &str) -> (r: bool)
    ensures
        r == (components(a@) == components(b@)),
{
    let ca = path_components(a);
    let cb = path_components(b);
    if ca.len() != cb.len() {
        proof {
            assert(views(ca@).len() != views(cb@).len());
        }
        return false;
    }
    let mut i: usize = 0;
    while i < ca.len()
        invariant
            ca@.len() == cb@.len(),
            i <= ca@.len(),
            views(ca@) == components(a@),
            views(cb@) == components(b@),
            forall|k: int| 0 <= k < i ==> ca@[k]@ == cb@[k]@,
        decreases ca@.len() - i,
    {
        if !chars_eq(ca[i].as_slice(), cb[i].as_slice()) {
            proof {
                assert(views(ca@)[i as int] == ca@[i as int]@);
                assert(views(cb@)[i as int] == cb@[i as int]@);
            }
            return false;
        }
        i = i + 1;
    }
    proof {
        assert(views(ca@) =~= views(cb@));
    }
    true
}

/// A path without `/` is a single segment.
pub proof fn lemma_segments_no_slash(p: Seq<char>)
    requires
        !p.contains('/'),
    ensures
        segments(p) == seq![p],
    decreases p.len(),
{
    if p.len() > 0 {
        let q = p.drop_last();
        assert(!q.contains('/')) by {
            if q.contains('/') {
                let i = choose|i: int| 0 <= i < q.len() && q[i] == '/';
                assert(p[i] == '/');
            }
        }
        lemma_segments_no_slash(q);
        assert(p.last() != '/') by {
            if p.last() == '/' {
                assert(p[p.len() - 1] == '/');
            }
        }
        assert(q.push(p.last()) =~= p);
        lemma_segments_push(q, p.last());
        assert(seq![q].update(0, q.push(p.last())) =~= seq![p]);
        assert(segments(q).last() == q);
    } else {
        assert(p =~= Seq::<char>::empty());
        assert(segments(p) =~= seq![p]);
    }
}

/// Joining with a separator concatenates the segments.
pub proof fn lemma_segments_concat(a: Seq<char>, b: Seq<char>)
    ensures
        segments(a + seq!['/'] + b) == segments(a) + segments(b),
    decreases b.len(),
{
    lemma_segments_nonempty(a);
    if b.len() == 0 {
        assert(a + seq!['/'] + b =~= a.push('/'));
        lemma_segments_push(a, '/');
        assert(segments(b) =~= seq![Seq::<char>::empty()]);
        assert(segments(a).push(Seq::<char>::empty()) =~= segments(a) + segments(b));
    } else {
        let b0 = b.drop_last();
        let c = b.last();
        lemma_segments_concat(a, b0);
        lemma_segments_nonempty(b0);
        assert(a + seq!['/'] + b =~= (a + seq!['/'] + b0).push(c));
        assert(b0.push(c) =~= b);
        lemma_segments_push(a + seq!['/'] + b0, c);
        lemma_segments_push(b0, c);
        let sa = segments(a);
        let sb = segments(b0);
        if c == '/' {
            assert((sa + sb).push(Seq::<char>::empty()) =~= sa + sb.push(Seq::<char>::empty()));
        } else {
            let t = sa + sb;
            assert(t.last() == sb.last());
            assert(t.update(t.len() - 1, t.last().push(c)) =~= sa + sb.update(
                sb.len() - 1,
                sb.last().push(c),
            ));
        }
    }
}

/// Components of a list of segments distribute over concatenation.
pub proof fn lemma_segment_components_concat(s: Seq<Seq<char>>, t: Seq<Seq<char>>)
    ensures
        segment_components(s + t) == segment_components(s) + segment_components(t),
    decreases t.len(),
{
    if t.len() == 0 {
        assert(s + t =~= s);
        assert(segment_components(t) =~= Seq::<Seq<char>>::empty());
        assert(segment_components(s) + segment_components(t) =~= segment_components(s));
    } else {
        lemma_segment_components_concat(s, t.drop_last());
        assert((s + t).drop_last() =~= s + t.drop_last());
        assert((s + t).last() == t.last());
        assert(segment_components(s + t) =~= segment_components(s) + segment_components(t));
    }
}

/// A non-empty name without `/` that does not start with `.` is a single
/// plain-name component.
pub proof fn lemma_single_name(n: Seq<char>)
    requires
        n.len() > 0,
        !n.contains('/'),
        n[0] != '.',
    ensures
        components(n) == seq![n],
        is_normal(n),
        all_normal(n),
{
    lemma_segments_no_slash(n);
    assert(n != seq!['.']) by {
        if n == seq!['.'] {
            assert(n[0] == '.');
        }
    }
    assert(segment_component(n) =~= seq![n]);
    assert(segment_components(seq![n]) =~= seq![n]) by {
        assert(seq![n].drop_last() =~= Seq::<Seq<char>>::empty());
        assert(seq![n].last() == n);
        assert(segment_components(Seq::<Seq<char>>::empty()) =~= Seq::<Seq<char>>::empty());
    }
    assert(n != seq!['/']) by {
        if n == seq!['/'] {
            assert(n.contains('/'));
        }
    }
    assert(n != seq!['.']) by {
        if n == seq!['.'] {
            assert(n[0] == '.');
        }
    }
    assert(n != seq!['.', '.']) by {
        if n == seq!['.', '.'] {
            assert(n[0] == '.');
        }
    }
    assert(components(n) =~= seq![n]);
}

/// A relative path whose components are all plain names, joined under a
/// single plain name, keeps every component a plain name: the result
/// names something inside that name's directory.
pub proof fn lemma_join_under_name(n: Seq<char>, rel: Seq<char>)
    requires
        n.len() > 0,
        !n.contains('/'),
        n[0] != '.',
        all_normal(rel),
    ensures
        components(n + seq!['/'] + rel) == seq![n] + components(rel),
        all_normal(n + seq!['/'] + rel),
        !is_absolute(n + seq!['/'] + rel),
{
    lemma_single_name(n);
    lemma_segments_no_slash(n);
    let p = n + seq!['/'] + rel;
    lemma_segments_concat(n, rel);
    lemma_segment_components_concat(seq![n], segments(rel));
    assert(p[0] == n[0]);
    assert(!is_absolute(rel)) by {
        if is_absolute(rel) {
            assert(components(rel)[0] == seq!['/']);
        }
    }
    assert(!leading_cur_dir(rel)) by {
        if leading_cur_dir(rel) {
            assert(components(rel)[0] == seq!['.']);
        }
    }
    assert(components(rel) =~= segment_components(segments(rel)));
    assert(segment_components(seq![n]) =~= seq![n]) by {
        assert(seq![n].drop_last() =~= Seq::<Seq<char>>::empty());
    }
    assert(components(p) =~= seq![n] + components(rel));
    assert forall|i: int| 0 <= i < components(p).len() implies is_normal(
        #[trigger] components(p)[i],
    ) by {
        if i > 0 {
            assert(components(p)[i] == components(rel)[i - 1]);
        }
    }
}

} // verus!
