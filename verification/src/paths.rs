//! The directory jail. A working directory is kept as the sequence of path
//! segments below the account's root, so a session can never name a
//! directory above the root: `..` pops a segment and at the root it is a
//! no-op. This replaces the path-ordering comparison with containment by
//! construction, resolving `.` and `..` segment by segment.

use vstd::prelude::*;
use crate::text::split_spec;
use crate::text::split_all;

verus! {

pub open spec fn is_dotdot(s: Seq<char>) -> bool {
    s.len() == 2 && s[0] == '.' && s[1] == '.'
}

pub open spec fn is_dot(s: Seq<char>) -> bool {
    s.len() == 1 && s[0] == '.'
}

/// One step of directory resolution below the root: `..` moves up but never
/// above the root, `.` and an empty segment change nothing, anything else
/// goes one level down.
pub open spec fn apply_segment_spec(cur: Seq<Seq<char>>, seg: Seq<char>) -> Seq<Seq<char>> {
    if is_dotdot(seg) {
        if cur.len() > 0 {
            cur.drop_last()
        } else {
            cur
        }
    } else if is_dot(seg) || seg.len() == 0 {
        cur
    } else {
        cur.push(seg)
    }
}

pub open spec fn resolve_segs(cur: Seq<Seq<char>>, segs: Seq<Seq<char>>) -> Seq<Seq<char>>
    decreases segs.len(),
{
    if segs.len() == 0 {
        cur
    } else {
        resolve_segs(apply_segment_spec(cur, segs[0]), segs.drop_first())
    }
}

/// The directory named by a request argument, relative to the current
/// jail-relative directory: the argument splits on `/` and each segment is
/// applied in turn.
pub open spec fn resolve_spec(cur: Seq<Seq<char>>, arg: Seq<char>) -> Seq<Seq<char>> {
    resolve_segs(cur, split_spec(arg, '/'))
}

fn is_dotdot_exec(seg: &String) -> (r: bool)
    ensures
        r == is_dotdot(seg@),
{
    let p = String::from_str("..");
    proof {
        reveal_strlit("..");
        assert(is_dotdot(p@));
    }
    let r = p.eq(seg);
    proof {
        if !r && is_dotdot(seg@) {
            assert(seg@ =~= p@);
        }
    }
    r
}

fn is_dot_exec(seg: &String) -> (r: bool)
    ensures
        r == is_dot(seg@),
{
    let p = String::from_str(".");
    proof {
        reveal_strlit(".");
    }
    let r = p.eq(seg);
    proof {
        if !r && is_dot(seg@) {
            assert(seg@ =~= p@);
        }
    }
    r
}

/// Resolves a request argument against the current directory, entirely
/// below the root whatever the argument holds.
pub fn resolve_arg(cur: &Vec<String>, arg: &str) -> (r: Vec<String>)
    ensures
        r.deep_view() == resolve_spec(cur.deep_view(), arg@),
{
    let segs = split_all(arg, '/');
    let mut r: Vec<String> = Vec::new();
    let mut i: usize = 0;
    while i < cur.len()
        invariant
            0 <= i <= cur.len(),
            r.deep_view() =~= cur.deep_view().subrange(0, i as int),
        decreases cur.len() - i,
    {
        let ghost prev = r.deep_view();
        let seg = cur[i].clone();
        proof {
            assert(prev.len() == i);
            assert(seg@ == cur@[i as int]@);
        }
        r.push(seg);
        proof {
            assert(r@.len() == i + 1);
            assert(r.deep_view() =~= cur.deep_view().subrange(0, i as int + 1));
        }
        i = i + 1;
    }
    proof {
        assert(cur.deep_view().subrange(0, cur.len() as int) =~= cur.deep_view());
        assert(segs.deep_view().subrange(0, segs.len() as int) =~= segs.deep_view());
    }
    let mut j: usize = 0;
    while j < segs.len()
        invariant
            0 <= j <= segs.len(),
            segs.deep_view() == split_spec(arg@, '/'),
            resolve_segs(r.deep_view(), segs.deep_view().subrange(j as int, segs.len() as int))
                == resolve_spec(cur.deep_view(), arg@),
        decreases segs.len() - j,
    {
        proof {
            let tail = segs.deep_view().subrange(j as int, segs.len() as int);
            assert(tail[0] == segs.deep_view()[j as int]);
            assert(tail.drop_first() =~= segs.deep_view().subrange(
                j as int + 1,
                segs.len() as int,
            ));
        }
        let ghost prev = r.deep_view();
        let ghost seg_spec = segs.deep_view()[j as int];
        proof {
            assert(prev.len() == r@.len());
        }
        let seg = &segs[j];
        if is_dotdot_exec(seg) {
            if r.len() > 0 {
                r.pop();
                proof {
                    assert(r@.len() == prev.len() - 1);
                    assert(r.deep_view() =~= prev.drop_last());
                }
            }
        } else if is_dot_exec(seg) || seg.as_str().is_empty() {
        } else {
            let ghost n0 = r@.len();
            r.push(seg.clone());
            proof {
                assert(r@.len() == n0 + 1);
                assert(r.deep_view() =~= prev.push(seg_spec));
            }
        }
        proof {
            assert(r.deep_view() == apply_segment_spec(prev, seg_spec));
        }
        j = j + 1;
    }
    proof {
        assert(segs.deep_view().subrange(segs.len() as int, segs.len() as int)
            =~= Seq::<Seq<char>>::empty());
    }
    r
}

/// A name without separators and distinct from `.` and `..` resolves to
/// one step below the current directory.
pub proof fn lemma_resolve_plain(cur: Seq<Seq<char>>, s: Seq<char>)
    requires
        s.len() > 0,
        forall|i: int| 0 <= i < s.len() ==> s[i] != '/',
        !is_dot(s),
        !is_dotdot(s),
    ensures
        resolve_spec(cur, s) == cur.push(s),
{
    crate::text::lemma_first_idx_at(s, '/', s.len() as int);
    assert(split_spec(s, '/') == seq![s]);
    assert(split_spec(s, '/')[0] == s);
    assert(seq![s].drop_first() =~= Seq::<Seq<char>>::empty());
    assert(apply_segment_spec(cur, s) == cur.push(s));
    assert(resolve_segs(cur.push(s), Seq::<Seq<char>>::empty()) == cur.push(s));
}

/// The textual form of a jail-relative path: segments joined with `/`.
pub open spec fn joined(p: Seq<Seq<char>>) -> Seq<char>
    decreases p.len(),
{
    if p.len() == 0 {
        Seq::empty()
    } else if p.len() == 1 {
        p[0]
    } else {
        joined(p.drop_last()) + seq!['/'] + p.last()
    }
}

pub fn join_path(segs: &Vec<String>) -> (r: String)
    ensures
        r@ == joined(segs.deep_view()),
{
    let mut r = String::new();
    let mut i: usize = 0;
    while i < segs.len()
        invariant
            0 <= i <= segs.len(),
            r@ == joined(segs.deep_view().subrange(0, i as int)),
        decreases segs.len() - i,
    {
        if i > 0 {
            r.append("/");
            proof {
                reveal_strlit("/");
            }
        }
        r.append(segs[i].as_str());
        proof {
            let p = segs.deep_view().subrange(0, i as int + 1);
            assert(p.drop_last() =~= segs.deep_view().subrange(0, i as int));
            assert(p.last() == segs.deep_view()[i as int]);
            assert(r@ =~= joined(p));
        }
        i = i + 1;
    }
    proof {
        assert(segs.deep_view().subrange(0, segs.len() as int) =~= segs.deep_view());
    }
    r
}

/// The display form of a working directory: the account root, then the
/// jail-relative segments.
pub open spec fn display_spec(root: Seq<char>, rel: Seq<Seq<char>>) -> Seq<char> {
    if rel.len() == 0 {
        root
    } else {
        root + seq!['/'] + joined(rel)
    }
}

pub fn display_path(root: &str, rel: &Vec<String>) -> (r: String)
    ensures
        r@ == display_spec(root@, rel.deep_view()),
{
    if rel.len() == 0 {
        root.to_owned()
    } else {
        let mut r = root.to_owned();
        r.append("/");
        let tail = join_path(rel);
        r.append(tail.as_str());
        proof {
            reveal_strlit("/");
            assert(r@ =~= display_spec(root@, rel.deep_view()));
        }
        r
    }
}

/// Segment-wise equality of two jail-relative paths.
pub fn path_eq(a: &Vec<String>, b: &Vec<String>) -> (r: bool)
    ensures
        r == (a.deep_view() == b.deep_view()),
{
    if a.len() != b.len() {
        proof {
            assert(a.deep_view().len() == a.len());
            assert(b.deep_view().len() == b.len());
        }
        return false;
    }
    let mut i: usize = 0;
    while i < a.len()
        invariant
            0 <= i <= a.len() == b.len(),
            a.deep_view().len() == b.deep_view().len(),
            forall|j: int| 0 <= j < i ==> a.deep_view()[j] == b.deep_view()[j],
        decreases a.len() - i,
    {
        if !a[i].eq(&b[i]) {
            proof {
                assert(a.deep_view()[i as int] != b.deep_view()[i as int]);
            }
            return false;
        }
        i = i + 1;
    }
    proof {
        assert(a.deep_view() =~= b.deep_view());
    }
    true
}

} // verus!
