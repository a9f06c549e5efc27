//! When two Unix paths name the same file as `Path` compares them: by their
//! components, with repeated separators, `.` segments and a trailing
//! separator not counting.

use vstd::prelude::*;

use super::strings::{chars_of, push_char};

verus! {

/// End of the path segment that starts at `i`.
pub open spec fn segment_end(p: Seq<char>, i: int) -> int
    decreases p.len() - i,
{
    if 0 <= i < p.len() && p[i] != '/' {
        segment_end(p, i + 1)
    } else {
        i
    }
}

/// Segments after `i` that do not end at `i`.
pub proof fn lemma_segment_end(p: Seq<char>, i: int)
    requires
        0 <= i <= p.len(),
    ensures
        i <= segment_end(p, i) <= p.len(),
        i < p.len() && p[i] != '/' ==> i < segment_end(p, i),
        segment_end(p, i) < p.len() ==> p[segment_end(p, i)] == '/',
        forall|k: int| i <= k < segment_end(p, i) ==> p[k] != '/',
    decreases p.len() - i,
{
    if i < p.len() && p[i] != '/' {
        lemma_segment_end(p, i + 1);
    }
}

/// The normal segments of a path from `i` on, as `Path::components` gives
/// them: separators collapsed and `.` segments dropped.
pub open spec fn segments_from(p: Seq<char>, i: int) -> Seq<Seq<char>>
    decreases p.len() - i,
{
    if i < 0 || i >= p.len() {
        Seq::empty()
    } else if p[i] == '/' {
        segments_from(p, i + 1)
    } else {
        let e = segment_end(p, i);
        proof {
            lemma_segment_end(p, i);
        }
        if p.subrange(i, e) == seq!['.'] {
            segments_from(p, e)
        } else {
            seq![p.subrange(i, e)] + segments_from(p, e)
        }
    }
}

/// Segments joined by `/`.
pub open spec fn joined(segments: Seq<Seq<char>>) -> Seq<char>
    decreases segments.len(),
{
    if segments.len() == 0 {
        Seq::empty()
    } else if segments.len() == 1 {
        segments[0]
    } else {
        joined(segments.drop_last()) + seq!['/'] + segments.last()
    }
}

/// Whether a relative path starts with a `.` component, which `Path` keeps.
pub open spec fn starts_with_current_dir(p: Seq<char>) -> bool {
    p.len() > 0 && p[0] == '.' && (p.len() == 1 || p[1] == '/')
}

/// The text that identifies a path by its components: a leading `/` for the
/// root, a leading `.` when the path starts with the current directory, then
/// the normal segments joined by `/`. Two paths compare equal as Unix `Path`
/// values exactly when their keys are equal.
pub open spec fn path_key(p: Seq<char>) -> Seq<char> {
    let segments = segments_from(p, 0);
    if p.len() > 0 && p[0] == '/' {
        seq!['/'] + joined(segments)
    } else if starts_with_current_dir(p) {
        if segments.len() == 0 {
            seq!['.']
        } else {
            seq!['.', '/'] + joined(segments)
        }
    } else {
        joined(segments)
    }
}

proof fn lemma_segments_step(p: Seq<char>, i: int)
    requires
        0 <= i < p.len(),
        p[i] != '/',
    ensures
        segments_from(p, i) == if p.subrange(i, segment_end(p, i)) == seq!['.'] {
            segments_from(p, segment_end(p, i))
        } else {
            seq![p.subrange(i, segment_end(p, i))] + segments_from(p, segment_end(p, i))
        },
{
    lemma_segment_end(p, i);
}

proof fn lemma_joined_push(segments: Seq<Seq<char>>, s: Seq<char>)
    ensures
        joined(segments.push(s)) == if segments.len() == 0 {
            s
        } else {
            joined(segments) + seq!['/'] + s
        },
{
    assert(segments.push(s).drop_last() =~= segments);
    if segments.len() == 0 {
        assert(segments.push(s)[0] == s);
    }
}

/// The key that identifies a path by its components.
pub fn path_key_text(path: &str) -> (res: String)
    ensures
        res@ == path_key(path@),
{
    let p = chars_of(path);
    let ghost ps = p@;
    let mut out = String::new();
    let root = p.len() > 0 && p[0] == '/';
    let current = !root && p.len() > 0 && p[0] == '.' && (p.len() == 1 || p[1] == '/');
    if root {
        push_char(&mut out, '/');
    } else if current {
        push_char(&mut out, '.');
    }
    let ghost prefix = out@;
    let ghost mut done: Seq<Seq<char>> = Seq::empty();
    let mut any_segment = false;
    let mut i: usize = 0;
    while i < p.len()
        invariant
            p@ == ps,
            any_segment == (done.len() > 0),
            ps == path@,
            i <= ps.len(),
            done + segments_from(ps, i as int) == segments_from(ps, 0),
            out@ == prefix + (if current && done.len() > 0 {
                seq!['/']
            } else {
                Seq::<char>::empty()
            }) + joined(done),
            prefix == if root {
                seq!['/']
            } else if current {
                seq!['.']
            } else {
                Seq::<char>::empty()
            },
        decreases ps.len() - i,
    {
        if p[i] == '/' {
            assert(segments_from(ps, i as int) == segments_from(ps, i + 1));
            i = i + 1;
        } else {
            let start = i;
            proof {
                lemma_segment_end(ps, start as int);
            }
            while i < p.len() && p[i] != '/'
                invariant
                    p@ == ps,
                    start <= i <= ps.len(),
                    segment_end(ps, start as int) == segment_end(ps, i as int),
                decreases ps.len() - i,
            {
                i = i + 1;
            }
            proof {
                lemma_segments_step(ps, start as int);
            }
            let ghost seg = ps.subrange(start as int, i as int);
            let single_dot = i - start == 1 && p[start] == '.';
            if single_dot {
                assert(seg =~= seq!['.']);
            } else {
                assert(seg != seq!['.']) by {
                    if seg.len() == 1 {
                        assert(seg[0] == ps[start as int]);
                    }
                }
                if any_segment || current {
                    push_char(&mut out, '/');
                }
                let ghost before = out@;
                let mut k = start;
                while k < i
                    invariant
                        p@ == ps,
                        start <= k <= i <= ps.len(),
                        out@ == before + ps.subrange(start as int, k as int),
                    decreases i - k,
                {
                    push_char(&mut out, p[k]);
                    assert(ps.subrange(start as int, k + 1) =~= ps.subrange(start as int, k as int).push(ps[k as int]));
                    k = k + 1;
                }
                any_segment = true;
                proof {
                    lemma_joined_push(done, seg);
                    assert(done + segments_from(ps, start as int) =~= done.push(seg) + segments_from(
                        ps,
                        i as int,
                    ));
                    done = done.push(seg);
                    assert(out@ =~= prefix + (if current && done.len() > 0 {
                        seq!['/']
                    } else {
                        Seq::<char>::empty()
                    }) + joined(done));
                }
            }
        }
    }
    proof {
        assert(segments_from(ps, i as int) =~= Seq::<Seq<char>>::empty());
        assert(done =~= segments_from(ps, 0));
        if current {
            if done.len() > 0 {
                assert(out@ =~= seq!['.', '/'] + joined(done));
            } else {
                assert(out@ =~= seq!['.']);
            }
        } else if root {
            assert(out@ =~= seq!['/'] + joined(done));
        } else {
            assert(out@ =~= joined(done));
        }
    }
    out
}

} // verus!
