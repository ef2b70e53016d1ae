//! Paths as text, with `/` between components.

use crate::text::{
    chars_of, first_index, join, joined, lemma_texts_push, split_all, split_on, string_of, texts,
    to_vec,
};
use vstd::prelude::*;
use vstd::string::StringExecFns;

verus! {

/// Whether `path` begins at the root.
pub open spec fn is_absolute(path: Seq<char>) -> bool {
    path.len() > 0 && path[0] == '/'
}

/// Whether a component of a path names a step: it is neither empty nor
/// `.`, which both stand for the place where one is.
pub open spec fn is_step(part: Seq<char>) -> bool {
    part.len() > 0 && part != seq!['.']
}

/// The components among `parts` that name a step, in their order.
pub open spec fn steps(parts: Seq<Seq<char>>) -> Seq<Seq<char>>
    decreases parts.len(),
{
    if parts.len() == 0 {
        Seq::empty()
    } else if is_step(parts.last()) {
        steps(parts.drop_last()).push(parts.last())
    } else {
        steps(parts.drop_last())
    }
}

/// `rel` without its empty components and without those that are `.`:
/// the same place, written in one way.
pub open spec fn plain_path(rel: Seq<char>) -> Seq<char> {
    join(steps(split_on(rel, '/')), "/"@)
}

/// `rel` taken from `base`: `rel` itself where it is absolute, else `base`
/// and the plain form of `rel` with one separator between them. Two
/// relative paths that differ only in `.` components or in doubled
/// separators give the same text.
pub open spec fn join_path(base: Seq<char>, rel: Seq<char>) -> Seq<char> {
    if is_absolute(rel) {
        rel
    } else if base.len() == 0 || base.last() == '/' {
        base + plain_path(rel)
    } else {
        base + "/"@ + plain_path(rel)
    }
}

proof fn lemma_steps_front(part: Seq<char>, parts: Seq<Seq<char>>)
    ensures
        steps(seq![part] + parts) == if is_step(part) {
            seq![part] + steps(parts)
        } else {
            steps(parts)
        },
    decreases parts.len(),
{
    let all = seq![part] + parts;
    let front = all.drop_last();
    assert(all.last() == if parts.len() == 0 {
        part
    } else {
        parts.last()
    });
    if parts.len() == 0 {
        assert(front =~= Seq::<Seq<char>>::empty());
        assert(steps(front) =~= Seq::<Seq<char>>::empty());
        assert(steps(parts) =~= Seq::<Seq<char>>::empty());
        assert(steps(all) =~= if is_step(part) {
            seq![part] + steps(parts)
        } else {
            steps(parts)
        });
    } else {
        assert(front =~= seq![part] + parts.drop_last());
        lemma_steps_front(part, parts.drop_last());
        assert(steps(all) =~= if is_step(part) {
            seq![part] + steps(parts)
        } else {
            steps(parts)
        });
    }
}

/// A relative path names the same file with and without `./` in front
/// of it.
pub proof fn lemma_leading_dot_is_dropped(base: Seq<char>, rel: Seq<char>)
    requires
        !is_absolute(rel),
    ensures
        join_path(base, "./"@ + rel) == join_path(base, rel),
{
    reveal_strlit("./");
    let s = "./"@ + rel;
    assert(s[0] == '.');
    assert(s.drop_first()[0] == '/');
    assert(first_index(s.drop_first(), '/') == 0);
    assert(first_index(s, '/') == 1);
    assert(s.subrange(0, 1) =~= seq!['.']);
    assert(s.subrange(2, s.len() as int) =~= rel);
    assert(split_on(s, '/') == seq![seq!['.']] + split_on(rel, '/'));
    lemma_steps_front(seq!['.'], split_on(rel, '/'));
}

pub fn is_absolute_path(path: &str) -> (r: bool)
    ensures
        r == is_absolute(path@),
{
    let chars: Vec<char> = chars_of(path);
    chars.len() > 0 && chars[0] == '/'
}

/// `rel` without its empty components and without those that are `.`.
pub fn plain_path_of(rel: &[char]) -> (r: Vec<char>)
    ensures
        r@ == plain_path(rel@),
{
    let parts: Vec<Vec<char>> = split_all(rel, '/');
    let mut kept: Vec<Vec<char>> = Vec::new();
    let mut i: usize = 0;
    proof {
        assert(texts(kept@) =~= Seq::<Seq<char>>::empty());
    }
    while i < parts.len()
        invariant
            i <= parts.len(),
            texts(kept@) == steps(texts(parts@).take(i as int)),
        decreases parts.len() - i,
    {
        proof {
            assert(texts(parts@).take(i + 1).drop_last() =~= texts(parts@).take(i as int));
        }
        let part: &Vec<char> = &parts[i];
        let is_dot: bool = part.len() == 1 && part[0] == '.';
        proof {
            if is_dot {
                assert(part@ =~= seq!['.']);
            } else {
                assert(part@.len() != 1 || part@[0] != seq!['.'][0]);
            }
        }
        if part.len() > 0 && !is_dot {
            let copy: Vec<char> = to_vec(part.as_slice());
            proof {
                lemma_texts_push(kept@, copy);
            }
            kept.push(copy);
        }
        i += 1;
    }
    proof {
        assert(texts(parts@).take(parts.len() as int) =~= texts(parts@));
        reveal_strlit("/");
    }
    let sep: Vec<char> = chars_of("/");
    joined(&kept, sep.as_slice())
}

/// `rel` taken from `base`.
pub fn joined_path(base: &str, rel: &str) -> (r: String)
    ensures
        r@ == join_path(base@, rel@),
{
    if is_absolute_path(rel) {
        return rel.to_owned();
    }
    let chars: Vec<char> = chars_of(base);
    let mut out: String = base.to_owned();
    if chars.len() > 0 && chars[chars.len() - 1] != '/' {
        out.append("/");
    }
    let rel_chars: Vec<char> = chars_of(rel);
    let plain: String = string_of(plain_path_of(rel_chars.as_slice()).as_slice());
    out.append(plain.as_str());
    out
}

} // verus!
