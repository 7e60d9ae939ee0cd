//! The static asset resolver's pure half: turning a request path into a
//! confined relative path under the served root, and the headers a served
//! file is answered with. Opening and streaming the file itself is I/O and
//! stays outside the library.
//!
//! A request path is split on `/`, empty and `.` segments are dropped,
//! `..` pops the segment before it, and a `..` that would climb out of the
//! served root makes the whole path unusable for static serving: directory
//! traversal is refused, never resolved outside the root.

use vstd::prelude::*;
use vstd::string::*;

verus! {

/// The request path cut at every `/`. A trailing or doubled slash yields
/// an empty segment, dropped later by `confine_segments`.
pub open spec fn split_segments(s: Seq<char>) -> Seq<Seq<char>>
    decreases s.len(),
{
    if s.len() == 0 {
        seq![Seq::<char>::empty()]
    } else if s.last() == '/' {
        split_segments(s.drop_last()).push(Seq::<char>::empty())
    } else {
        let rest = split_segments(s.drop_last());
        rest.update(rest.len() - 1, rest.last().push(s.last()))
    }
}

/// Resolves the segments against the served root: empty and `.` segments
/// vanish, `..` steps back up, and a `..` with nothing left to step out of
/// — an escape from the root — refuses the whole path.
pub open spec fn confine_segments(segs: Seq<Seq<char>>) -> Option<Seq<Seq<char>>>
    decreases segs.len(),
{
    if segs.len() == 0 {
        Some(Seq::<Seq<char>>::empty())
    } else {
        match confine_segments(segs.drop_last()) {
            None => None,
            Some(stack) => {
                let seg = segs.last();
                if seg.len() == 0 || seg == "."@ {
                    Some(stack)
                } else if seg == ".."@ {
                    if stack.len() == 0 {
                        None
                    } else {
                        Some(stack.drop_last())
                    }
                } else {
                    Some(stack.push(seg))
                }
            },
        }
    }
}

/// What confinement guarantees: every segment that survives is a real
/// name — never empty, never `.`, never the climb `..`. The resolved path
/// therefore stays under the served root.
pub proof fn lemma_confined_segments_safe(segs: Seq<Seq<char>>)
    requires
        confine_segments(segs) is Some,
    ensures
        forall|t: int|
            0 <= t < confine_segments(segs)->Some_0.len() ==> (#[trigger] confine_segments(
                segs,
            )->Some_0[t]).len() > 0 && confine_segments(segs)->Some_0[t] != "."@
                && confine_segments(segs)->Some_0[t] != ".."@,
    decreases segs.len(),
{
    if segs.len() > 0 {
        lemma_confined_segments_safe(segs.drop_last());
        let stack = confine_segments(segs.drop_last())->Some_0;
        let seg = segs.last();
        if seg.len() == 0 || seg == "."@ {
        } else if seg == ".."@ {
            assert(forall|t: int|
                0 <= t < stack.drop_last().len() ==> stack.drop_last()[t] == stack[t]);
        } else {
        }
    }
}

/// Once a prefix of the segments is refused, the whole path is refused.
pub proof fn lemma_confine_none_propagates(segs: Seq<Seq<char>>, j: int)
    requires
        0 <= j <= segs.len(),
        confine_segments(segs.take(j)) is None,
    ensures
        confine_segments(segs) is None,
    decreases segs.len() - j,
{
    if j < segs.len() {
        assert(segs.take(j + 1).drop_last() =~= segs.take(j));
        lemma_confine_none_propagates(segs, j + 1);
    } else {
        assert(segs.take(j) =~= segs);
    }
}

/// The confined segments glued back together with `/` between them.
pub open spec fn join_segments(segs: Seq<Seq<char>>) -> Seq<char>
    decreases segs.len(),
{
    if segs.len() == 0 {
        Seq::<char>::empty()
    } else if segs.len() == 1 {
        segs[0]
    } else {
        join_segments(segs.drop_last()).push('/') + segs.last()
    }
}

/// The path a static file may be served from, relative to the served
/// root: the request path normalized, or nothing when it would escape the
/// root. The leading slash of a request path vanishes as an empty segment.
pub fn normalize_path(path: &str) -> (r: Option<String>)
    ensures
        r is Some <==> confine_segments(split_segments(path@)) is Some,
        r is Some ==> r->Some_0@ == join_segments(confine_segments(split_segments(path@))->Some_0),
{
    let n = path.unicode_len();
    let mut segs: Vec<String> = Vec::new();
    let mut cur: String = String::new();
    let mut i: usize = 0;
    while i < n
        invariant
            i <= n,
            n == path@.len(),
            split_segments(path@.subrange(0, i as int)) == segs@.map_values(|s: String| s@).push(
                cur@,
            ),
        decreases n - i,
    {
        let c = path.get_char(i);
        let ghost prev = segs@;
        let ghost pcur = cur@;
        proof {
            assert(path@.subrange(0, i + 1 as int).drop_last() =~= path@.subrange(0, i as int));
            assert(path@.subrange(0, i + 1 as int).last() == path@[i as int]);
        }
        if c == '/' {
            segs.push(cur);
            cur = String::new();
            proof {
                assert(segs@.map_values(|s: String| s@) =~= prev.map_values(|s: String| s@).push(
                    pcur,
                ));
                assert(split_segments(path@.subrange(0, i + 1 as int)) =~= segs@.map_values(
                    |s: String| s@,
                ).push(cur@));
            }
        } else {
            cur.push(c);
            proof {
                let rest = prev.map_values(|s: String| s@).push(pcur);
                assert(rest.len() - 1 == prev.len());
                assert(rest.last() == pcur);
                assert(rest.update(prev.len() as int, pcur.push(c)) =~= prev.map_values(
                    |s: String| s@,
                ).push(pcur.push(c)));
                assert(split_segments(path@.subrange(0, i + 1 as int)) =~= segs@.map_values(
                    |s: String| s@,
                ).push(cur@));
            }
        }
        i = i + 1;
    }
    proof {
        assert(path@.subrange(0, n as int) =~= path@);
    }
    let ghost prev = segs@;
    let ghost pcur = cur@;
    segs.push(cur);
    proof {
        assert(segs@.map_values(|s: String| s@) =~= prev.map_values(|s: String| s@).push(pcur));
        assert(segs@.map_values(|s: String| s@) == split_segments(path@));
    }
    let dot = String::from_str(".");
    let dotdot = String::from_str("..");
    let mut stack: Vec<String> = Vec::new();
    let m = segs.len();
    let mut k: usize = 0;
    proof {
        assert(segs@.map_values(|s: String| s@).take(0) =~= Seq::<Seq<char>>::empty());
        assert(stack@.map_values(|s: String| s@) =~= Seq::<Seq<char>>::empty());
    }
    while k < m
        invariant
            k <= m,
            m == segs@.len(),
            segs@.map_values(|s: String| s@) == split_segments(path@),
            dot@ == "."@,
            dotdot@ == ".."@,
            confine_segments(segs@.map_values(|s: String| s@).take(k as int)) == Some(
                stack@.map_values(|s: String| s@),
            ),
        decreases m - k,
    {
        let ghost all = segs@.map_values(|s: String| s@);
        let ghost pstack = stack@;
        proof {
            assert(all.take(k + 1 as int).drop_last() =~= all.take(k as int));
            assert(all.take(k + 1 as int).last() == segs@[k as int]@);
        }
        let seg = &segs[k];
        if seg.as_str().is_empty() || seg.eq(&dot) {
            // the segment vanishes
        } else if seg.eq(&dotdot) {
            if stack.len() == 0 {
                proof {
                    assert(pstack.map_values(|s: String| s@).len() == 0);
                    assert(confine_segments(all.take(k + 1 as int)) is None);
                    lemma_confine_none_propagates(all, k + 1 as int);
                }
                return None;
            }
            stack.pop();
            proof {
                assert(stack@.map_values(|s: String| s@) =~= pstack.map_values(
                    |s: String| s@,
                ).drop_last());
            }
        } else {
            stack.push(seg.clone());
            proof {
                assert(stack@.map_values(|s: String| s@) =~= pstack.map_values(
                    |s: String| s@,
                ).push(segs@[k as int]@));
            }
        }
        proof {
            assert(confine_segments(all.take(k + 1 as int)) == Some(
                stack@.map_values(|s: String| s@),
            ));
        }
        k = k + 1;
    }
    proof {
        assert(segs@.map_values(|s: String| s@).take(m as int) =~= segs@.map_values(
            |s: String| s@,
        ));
    }
    let mut out = String::new();
    let sn = stack.len();
    let mut t: usize = 0;
    while t < sn
        invariant
            t <= sn,
            sn == stack@.len(),
            confine_segments(split_segments(path@)) == Some(stack@.map_values(|s: String| s@)),
            out@ == join_segments(stack@.map_values(|s: String| s@).take(t as int)),
        decreases sn - t,
    {
        let ghost views = stack@.map_values(|s: String| s@);
        proof {
            assert(views.take(t + 1 as int).drop_last() =~= views.take(t as int));
            assert(views.take(t + 1 as int).last() == stack@[t as int]@);
        }
        if t > 0 {
            out.push('/');
        } else {
            proof {
                assert(out@ =~= Seq::<char>::empty());
            }
        }
        out.append(stack[t].as_str());
        proof {
            if t == 0 {
                assert(out@ =~= views.take(1).last());
                assert(out@ == join_segments(views.take(t + 1 as int)));
            } else {
                assert(out@ == join_segments(views.take(t as int)).push('/') + stack@[t as int]@);
                assert(out@ == join_segments(views.take(t + 1 as int)));
            }
        }
        t = t + 1;
    }
    proof {
        assert(stack@.map_values(|s: String| s@).take(sn as int) =~= stack@.map_values(
            |s: String| s@,
        ));
    }
    Some(out)
}

/// What the extension of a path says the content type is.
pub uninterp spec fn mime_for_path(p: Seq<char>) -> Seq<char>;

/// Relies on `mime_guess::from_path` with `first_or_text_plain`: the
/// extension of the path is looked up in a fixed table, `text/plain`
/// stands in when it is unknown, and the answer depends on the path alone.
#[verifier::external_body]
fn guess_mime(path: &str) -> (r: String)
    ensures
        r@ == mime_for_path(path@),
{
    mime_guess::from_path(path).first_or_text_plain().to_string()
}

/// The headers a static file is served with.
pub struct StaticResponsePlan {
    /// Guessed from the request path's extension.
    pub content_type: String,
    /// The file's size in bytes.
    pub content_length: u64,
    /// A day of public caching.
    pub cache_control: String,
}

/// The response headers for a static file found under the request path.
pub fn static_response_plan(request_path: &str, file_size: u64) -> (r: StaticResponsePlan)
    ensures
        r.content_type@ == mime_for_path(request_path@),
        r.content_length == file_size,
        r.cache_control@ == "public, max-age=86400"@,
{
    StaticResponsePlan {
        content_type: guess_mime(request_path),
        content_length: file_size,
        cache_control: String::from_str("public, max-age=86400"),
    }
}

} // verus!
