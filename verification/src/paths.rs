//! Paths held as text, joined and compared as `Path` joins and compares
//! them on Unix.

use vstd::prelude::*;
use crate::text::chars_of;

verus! {

/// `base` joined with `rel`: an absolute `rel` replaces `base`; otherwise a
/// `/` separates the two unless `base` is empty or already ends with one.
pub open spec fn path_join(base: Seq<char>, rel: Seq<char>) -> Seq<char> {
    if rel.len() > 0 && rel[0] == '/' {
        rel
    } else if base.len() == 0 || base.last() == '/' {
        base + rel
    } else {
        base + "/"@ + rel
    }
}

/// Join two paths (see [`path_join`]).
pub fn join_path(base: &str, rel: &str) -> (r: String)
    ensures
        r@ == path_join(base@, rel@),
{
    let rl = rel.unicode_len();
    if rl > 0 && rel.get_char(0) == '/' {
        return String::from_str(rel);
    }
    let bl = base.unicode_len();
    if bl == 0 || base.get_char(bl - 1) == '/' {
        String::from_str(base).concat(rel)
    } else {
        proof {
            reveal_strlit("/");
        }
        String::from_str(base).concat("/").concat(rel)
    }
}


/// `s` cut at every `/`, as `str::split('/')` cuts it.
pub open spec fn split_slash(s: Seq<char>) -> Seq<Seq<char>>
    decreases s.len(),
{
    if s.len() == 0 {
        seq![Seq::empty()]
    } else {
        let init = split_slash(s.drop_last());
        if s.last() == '/' {
            init.push(Seq::empty())
        } else {
            init.update(init.len() - 1, init.last().push(s.last()))
        }
    }
}

pub proof fn lemma_split_slash_len(s: Seq<char>)
    ensures
        split_slash(s).len() >= 1,
    decreases s.len(),
{
    if s.len() > 0 {
        lemma_split_slash_len(s.drop_last());
    }
}

/// The parts that name something: neither empty nor `.`.
pub open spec fn named_parts(ps: Seq<Seq<char>>) -> Seq<Seq<char>>
    decreases ps.len(),
{
    if ps.len() == 0 {
        Seq::empty()
    } else if ps.last().len() == 0 || ps.last() == seq!['.'] {
        named_parts(ps.drop_last())
    } else {
        named_parts(ps.drop_last()).push(ps.last())
    }
}

/// The components of a path, as `Path::components` gives them on Unix: the
/// root (written `/`) or a leading current directory (written `.`), then
/// the parts between slashes that are neither empty nor `.`.
pub open spec fn path_components(p: Seq<char>) -> Seq<Seq<char>> {
    let lead = if p.len() > 0 && p[0] == '/' {
        seq![seq!['/']]
    } else if p.len() > 0 && p[0] == '.' && (p.len() == 1 || p[1] == '/') {
        seq![seq!['.']]
    } else {
        Seq::empty()
    };
    lead + named_parts(split_slash(p))
}

/// `Path::starts_with`: the components of `base` begin those of `p`.
pub open spec fn path_starts_with(p: Seq<char>, base: Seq<char>) -> bool {
    let cp = path_components(p);
    let cb = path_components(base);
    cb.len() <= cp.len() && cp.take(cb.len() as int) == cb
}

/// The views of a list of character lists.
pub open spec fn char_lists(v: Seq<Vec<char>>) -> Seq<Seq<char>> {
    v.map_values(|x: Vec<char>| x@)
}

fn split_slash_exec(cs: &Vec<char>) -> (r: Vec<Vec<char>>)
    ensures
        char_lists(r@) == split_slash(cs@),
{
    let mut parts: Vec<Vec<char>> = Vec::new();
    parts.push(Vec::new());
    assert(char_lists(parts@) =~= split_slash(cs@.take(0)));
    let mut i: usize = 0;
    while i < cs.len()
        invariant
            i <= cs@.len(),
            parts@.len() >= 1,
            char_lists(parts@) == split_slash(cs@.take(i as int)),
        decreases cs@.len() - i,
    {
        let ghost before = parts@;
        assert(cs@.take(i as int + 1).drop_last() =~= cs@.take(i as int));
        assert(cs@.take(i as int + 1).last() == cs@[i as int]);
        let c = cs[i];
        if c == '/' {
            parts.push(Vec::new());
            assert(char_lists(parts@) =~= char_lists(before).push(Seq::empty()));
        } else {
            let mut last = parts.pop().unwrap();
            last.push(c);
            parts.push(last);
            assert(char_lists(parts@) =~= char_lists(before).update(
                char_lists(before).len() - 1,
                char_lists(before).last().push(c),
            ));
        }
        i = i + 1;
    }
    assert(cs@.take(cs@.len() as int) =~= cs@);
    parts
}

fn is_dot(v: &Vec<char>) -> (r: bool)
    ensures
        r == (v@ == seq!['.']),
{
    if v.len() == 1 && v[0] == '.' {
        assert(v@ =~= seq!['.']);
        true
    } else {
        false
    }
}

fn components_exec(p: &str) -> (r: Vec<Vec<char>>)
    ensures
        char_lists(r@) == path_components(p@),
{
    let cs = chars_of(p);
    let parts = split_slash_exec(&cs);
    let ghost ps = char_lists(parts@);
    let ghost lead: Seq<Seq<char>> = if p@.len() > 0 && p@[0] == '/' {
        seq![seq!['/']]
    } else if p@.len() > 0 && p@[0] == '.' && (p@.len() == 1 || p@[1] == '/') {
        seq![seq!['.']]
    } else {
        Seq::empty()
    };
    let mut out: Vec<Vec<char>> = Vec::new();
    let n = cs.len();
    if n > 0 && cs[0] == '/' {
        let root = vec!['/'];
        assert(root@ =~= seq!['/']);
        out.push(root);
    } else if n > 0 && cs[0] == '.' && (n == 1 || cs[1] == '/') {
        let cur = vec!['.'];
        assert(cur@ =~= seq!['.']);
        out.push(cur);
    }
    assert(char_lists(out@) =~= lead);
    let mut j: usize = 0;
    while j < parts.len()
        invariant
            ps == char_lists(parts@),
            j <= parts@.len(),
            char_lists(out@) == lead + named_parts(ps.take(j as int)),
        decreases parts@.len() - j,
    {
        assert(ps.take(j as int + 1).drop_last() =~= ps.take(j as int));
        assert(ps.take(j as int + 1).last() == parts@[j as int]@);
        let ghost before = out@;
        if parts[j].len() > 0 && !is_dot(&parts[j]) {
            out.push(parts[j].clone());
            assert(char_lists(out@) =~= char_lists(before).push(parts@[j as int]@));
        }
        j = j + 1;
    }
    assert(ps.take(parts@.len() as int) =~= ps);
    assert(char_lists(out@) =~= path_components(p@));
    out
}

fn char_lists_equal(a: &Vec<char>, b: &Vec<char>) -> (r: bool)
    ensures
        r == (a@ == b@),
{
    if a.len() != b.len() {
        return false;
    }
    let mut i: usize = 0;
    while i < a.len()
        invariant
            a@.len() == b@.len(),
            i <= a@.len(),
            forall|k: int| 0 <= k < i ==> a@[k] == b@[k],
        decreases a@.len() - i,
    {
        if a[i] != b[i] {
            return false;
        }
        i = i + 1;
    }
    assert(a@ =~= b@);
    true
}

/// Does the path `p` lie under `base`, component by component (see
/// [`path_starts_with`])?
pub fn path_within(p: &str, base: &str) -> (r: bool)
    ensures
        r == path_starts_with(p@, base@),
{
    let cp = components_exec(p);
    let cb = components_exec(base);
    if cb.len() > cp.len() {
        return false;
    }
    let mut i: usize = 0;
    while i < cb.len()
        invariant
            char_lists(cp@) == path_components(p@),
            char_lists(cb@) == path_components(base@),
            cb@.len() <= cp@.len(),
            i <= cb@.len(),
            forall|k: int| 0 <= k < i ==> cp@[k]@ == cb@[k]@,
        decreases cb@.len() - i,
    {
        if !char_lists_equal(&cp[i], &cb[i]) {
            assert(char_lists(cp@).take(cb@.len() as int)[i as int] != char_lists(cb@)[i as int]);
            return false;
        }
        i = i + 1;
    }
    assert(char_lists(cp@).take(cb@.len() as int) =~= char_lists(cb@));
    true
}

} // verus!
