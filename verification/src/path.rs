//! File paths compared by their components, as `std::path::Path` compares
//! them on Unix: repeated separators, a trailing separator and `.` segments
//! after the first make no difference.
use vstd::prelude::*;

use crate::text::{chars_of, string_of};

verus! {

/// The texts between the `/` separators of a path, in order, empty ones
/// included; a path without separators is one segment.
pub open spec fn path_segments(s: Seq<char>) -> Seq<Seq<char>>
    decreases s.len(),
{
    if s.len() == 0 {
        seq![Seq::<char>::empty()]
    } else {
        let r = path_segments(s.drop_last());
        if s.last() == '/' {
            r.push(Seq::empty())
        } else {
            r.update(r.len() - 1, r.last().push(s.last()))
        }
    }
}

/// Whether a segment after the first names a component: it is neither empty
/// nor `.`.
pub open spec fn names_component(g: Seq<char>) -> bool {
    g.len() > 0 && g != seq!['.']
}

/// The components named by segments that follow the first, in order.
pub open spec fn later_components(segs: Seq<Seq<char>>) -> Seq<Seq<char>>
    decreases segs.len(),
{
    if segs.len() == 0 {
        Seq::empty()
    } else {
        let r = later_components(segs.drop_last());
        if names_component(segs.last()) {
            r.push(segs.last())
        } else {
            r
        }
    }
}

/// The components of a path after its root: the first segment when it is
/// not empty (a leading `.` counts), then every later segment that names a
/// component.
pub open spec fn path_components(s: Seq<char>) -> Seq<Seq<char>> {
    let segs = path_segments(s);
    (if segs[0].len() > 0 {
        seq![segs[0]]
    } else {
        Seq::empty()
    }) + later_components(segs.drop_first())
}

/// Components joined with `/`.
pub open spec fn join_slash(parts: Seq<Seq<char>>) -> Seq<char>
    decreases parts.len(),
{
    if parts.len() == 0 {
        Seq::empty()
    } else if parts.len() == 1 {
        parts[0]
    } else {
        join_slash(parts.drop_last()) + seq!['/'] + parts.last()
    }
}

/// Whether a path starts at the root.
pub open spec fn rooted(s: Seq<char>) -> bool {
    s.len() > 0 && s[0] == '/'
}

/// The path written from its components alone: the root, if any, then the
/// components joined with `/`. Two paths that `Path` holds equal have the
/// same normal form.
pub open spec fn normalized_path(s: Seq<char>) -> Seq<char> {
    (if rooted(s) {
        seq!['/']
    } else {
        Seq::empty()
    }) + join_slash(path_components(s))
}

/// The views of a sequence of character vectors.
pub open spec fn char_vecs_view(v: Seq<Vec<char>>) -> Seq<Seq<char>> {
    v.map_values(|x: Vec<char>| x@)
}

proof fn lemma_segments_nonempty(s: Seq<char>)
    ensures
        path_segments(s).len() >= 1,
    decreases s.len(),
{
    if s.len() > 0 {
        lemma_segments_nonempty(s.drop_last());
    }
}

proof fn lemma_join_slash_push(parts: Seq<Seq<char>>, g: Seq<char>)
    ensures
        join_slash(parts.push(g)) == if parts.len() == 0 {
            g
        } else {
            join_slash(parts) + seq!['/'] + g
        },
{
    assert(parts.push(g).drop_last() == parts);
    if parts.len() == 0 {
        assert(parts.push(g)[0] == g);
    }
}

fn append_chars(out: &mut Vec<char>, g: &Vec<char>)
    ensures
        final(out)@ == old(out)@ + g@,
{
    let mut i: usize = 0;
    while i < g.len()
        invariant
            i <= g.len(),
            out@ == old(out)@ + g@.take(i as int),
        decreases g.len() - i,
    {
        out.push(g[i]);
        assert(g@.take(i + 1) == g@.take(i as int).push(g@[i as int]));
        i = i + 1;
    }
    assert(g@.take(g.len() as int) == g@);
}

/// The segments of a path, split at `/`.
fn split_segments(v: &Vec<char>) -> (r: Vec<Vec<char>>)
    ensures
        char_vecs_view(r@) == path_segments(v@),
{
    let mut done: Vec<Vec<char>> = Vec::new();
    let mut cur: Vec<char> = Vec::new();
    let mut i: usize = 0;
    while i < v.len()
        invariant
            i <= v.len(),
            char_vecs_view(done@).push(cur@) == path_segments(v@.take(i as int)),
        decreases v.len() - i,
    {
        let ghost before = v@.take(i as int);
        assert(v@.take(i + 1).drop_last() == before);
        assert(v@.take(i + 1).last() == v@[i as int]);
        proof {
            lemma_segments_nonempty(before);
        }
        if v[i] == '/' {
            let ghost done_before = char_vecs_view(done@);
            done.push(cur);
            assert(char_vecs_view(done@) == done_before.push(cur@));
            cur = Vec::new();
            assert(char_vecs_view(done@).push(cur@) == path_segments(v@.take(i + 1)));
        } else {
            cur.push(v[i]);
            assert(char_vecs_view(done@).push(cur@) == path_segments(v@.take(i + 1)));
        }
        i = i + 1;
    }
    assert(v@.take(v.len() as int) == v@);
    let ghost done_before = char_vecs_view(done@);
    done.push(cur);
    assert(char_vecs_view(done@) == done_before.push(cur@));
    done
}

fn names_component_exec(g: &Vec<char>) -> (r: bool)
    ensures
        r == names_component(g@),
{
    if g.len() == 0 {
        false
    } else if g.len() == 1 && g[0] == '.' {
        assert(g@ == seq!['.']);
        false
    } else {
        assert(g@.len() != 1 ==> g@ != seq!['.']);
        true
    }
}

/// A path written from its components alone, so that two paths equal as
/// `Path`s give the same text: `a//b/./c/` becomes `a/b/c`, `/x/.` becomes
/// `/x`, and `./a` keeps its leading `.`.
pub fn normalize_path(path: &str) -> (r: String)
    ensures
        r@ == normalized_path(path@),
{
    let v = chars_of(path);
    let segs = split_segments(&v);
    let ghost sv = char_vecs_view(segs@);
    proof {
        lemma_segments_nonempty(v@);
    }
    let mut out: Vec<char> = Vec::new();
    let ghost prefix: Seq<char> = if rooted(v@) {
        seq!['/']
    } else {
        Seq::empty()
    };
    if v.len() > 0 && v[0] == '/' {
        out.push('/');
    }
    assert(out@ == prefix);
    let ghost first: Seq<Seq<char>> = if sv[0].len() > 0 {
        seq![sv[0]]
    } else {
        Seq::empty()
    };
    let ghost mut parts: Seq<Seq<char>> = Seq::empty();
    let mut any: bool = false;
    assert(segs@[0]@ == sv[0]);
    if segs[0].len() > 0 {
        any = true;
        proof {
            lemma_join_slash_push(parts, sv[0]);
        }
        append_chars(&mut out, &segs[0]);
        proof {
            parts = parts.push(sv[0]);
        }
    }
    assert(parts == first);
    let mut j: usize = 1;
    while j < segs.len()
        invariant
            1 <= j <= segs.len(),
            sv == char_vecs_view(segs@),
            sv.len() >= 1,
            parts == first + later_components(sv.subrange(1, j as int)),
            out@ == prefix + join_slash(parts),
            any == (parts.len() > 0),
        decreases segs.len() - j,
    {
        let ghost g = sv[j as int];
        assert(segs@[j as int]@ == g);
        assert(sv.subrange(1, j + 1).drop_last() == sv.subrange(1, j as int));
        assert(sv.subrange(1, j + 1).last() == g);
        if names_component_exec(&segs[j]) {
            proof {
                lemma_join_slash_push(parts, g);
            }
            if any {
                out.push('/');
            }
            any = true;
            append_chars(&mut out, &segs[j]);
            proof {
                parts = parts.push(g);
            }
            assert(out@ == prefix + join_slash(parts));
        }
        j = j + 1;
    }
    assert(sv.subrange(1, sv.len() as int) == sv.drop_first());
    string_of(&out)
}

} // verus!
