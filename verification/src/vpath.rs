//! Virtual path handling: a root-relative path is a sequence of segments;
//! resolving it normalizes the segments and refuses any path that would
//! escape the permitted root.

use vstd::prelude::*;

verus! {

/// Normalizes path segments against an empty stack: empty segments and
/// `.` are dropped, `..` removes the last kept segment, and a `..` with
/// nothing left to remove means the path escapes the root.
pub open spec fn normalize_spec(segs: Seq<Seq<char>>) -> Option<Seq<Seq<char>>>
    decreases segs.len(),
{
    if segs.len() == 0 {
        Some(Seq::empty())
    } else {
        match normalize_spec(segs.drop_last()) {
            None => None,
            Some(stack) => {
                let s = segs.last();
                if s.len() == 0 || s == "."@ {
                    Some(stack)
                } else if s == ".."@ {
                    if stack.len() == 0 {
                        None
                    } else {
                        Some(stack.drop_last())
                    }
                } else {
                    Some(stack.push(s))
                }
            },
        }
    }
}

/// The deep mathematical form of a list of segments.
pub open spec fn segs_view(v: Seq<String>) -> Seq<Seq<char>> {
    Seq::new(v.len(), |i: int| if 0 <= i < v.len() { v[i]@ } else { Seq::empty() })
}

/// Once a prefix escapes the root, the whole path does.
proof fn lemma_prefix_none(segs: Seq<Seq<char>>, i: int)
    requires
        0 <= i <= segs.len(),
        normalize_spec(segs.take(i)) is None,
    ensures
        normalize_spec(segs) is None,
    decreases segs.len() - i,
{
    if i < segs.len() {
        assert(segs.take(i + 1).drop_last() =~= segs.take(i));
        lemma_prefix_none(segs, i + 1);
    } else {
        assert(segs.take(i) =~= segs);
    }
}

/// Resolves a virtual path's segments below a root: the normalized
/// segments, or nothing when the path would escape the root.
#[verifier::loop_isolation(false)]
pub fn resolve_segments(segs: &Vec<String>) -> (r: Option<Vec<String>>)
    ensures
        r matches Some(out) ==> normalize_spec(segs_view(segs@)) == Some(segs_view(out@)),
        r is None ==> normalize_spec(segs_view(segs@)) is None,
{
    let dot = String::from_str(".");
    let dotdot = String::from_str("..");
    let mut stack: Vec<String> = Vec::new();
    let mut i: usize = 0;
    proof {
        assert(segs_view(segs@).take(0) =~= Seq::<Seq<char>>::empty());
        assert(segs_view(stack@) =~= Seq::<Seq<char>>::empty());
    }
    while i < segs.len()
        invariant
            i <= segs.len(),
            dot@ == "."@,
            dotdot@ == ".."@,
            normalize_spec(segs_view(segs@).take(i as int)) == Some(segs_view(stack@)),
        decreases segs.len() - i,
    {
        let ghost whole = segs_view(segs@);
        let ghost prev = segs_view(stack@);
        proof {
            assert(whole.take(i + 1).drop_last() =~= whole.take(i as int));
            assert(whole.take(i + 1).last() == segs@[i as int]@);
        }
        let seg = &segs[i];
        if seg.as_str().is_empty() || *seg == dot {
            // dropped from the path
        } else if *seg == dotdot {
            if stack.len() == 0 {
                proof {
                    assert(normalize_spec(whole.take(i + 1)) is None);
                    lemma_prefix_none(whole, i + 1);
                }
                return None;
            }
            stack.pop();
            proof {
                assert(segs_view(stack@) =~= prev.drop_last());
            }
        } else {
            stack.push(seg.clone());
            proof {
                assert(segs_view(stack@) =~= prev.push(segs@[i as int]@));
            }
        }
        i = i + 1;
    }
    proof {
        assert(segs_view(segs@).take(segs@.len() as int) =~= segs_view(segs@));
    }
    Some(stack)
}

} // verus!
