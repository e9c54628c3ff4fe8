use vstd::prelude::*;

use crate::text::{split, split_on, views};

verus! {

/// Whether a path segment names something: neither empty nor `.`.
pub open spec fn is_component(p: Seq<char>) -> bool {
    p.len() > 0 && p != seq!['.']
}

/// The segments of `ps` that name something, in order.
pub open spec fn named(ps: Seq<Seq<char>>) -> Seq<Seq<char>>
    decreases ps.len(),
{
    if ps.len() == 0 {
        seq![]
    } else if is_component(ps.last()) {
        named(ps.drop_last()).push(ps.last())
    } else {
        named(ps.drop_last())
    }
}

/// The components of a `/`-separated path.
pub open spec fn components(path: Seq<char>) -> Seq<Seq<char>> {
    named(split(path, '/'))
}

/// A path is relative unless it starts with `/`.
pub open spec fn is_relative(path: Seq<char>) -> bool {
    path.len() == 0 || path[0] != '/'
}

/// `relative` placed under `base`.
pub open spec fn join_path(base: Seq<char>, relative: Seq<char>) -> Seq<char> {
    if base.len() == 0 {
        relative
    } else if base.last() == '/' {
        base + relative
    } else {
        base + seq!['/'] + relative
    }
}

/// The components of a path, in order.
pub fn path_components(path: &str) -> (r: Vec<String>)
    ensures
        views(r@) == components(path@),
{
    let pieces = split_on(path, '/');
    let mut r: Vec<String> = Vec::new();
    let mut i: usize = 0;
    assert(views(pieces@).take(0) =~= Seq::<Seq<char>>::empty());
    assert(views(r@) =~= Seq::<Seq<char>>::empty());
    while i < pieces.len()
        invariant
            i <= pieces@.len(),
            views(pieces@) == split(path@, '/'),
            views(r@) == named(views(pieces@).take(i as int)),
        decreases pieces@.len() - i,
    {
        let ghost before = r@;
        assert(views(pieces@).take(i + 1).drop_last() =~= views(pieces@).take(i as int));
        assert(views(pieces@).take(i + 1).last() == pieces@[i as int]@);
        let p = pieces[i].as_str();
        let is_dot = p.unicode_len() == 1 && p.get_char(0) == '.';
        proof {
            if p@.len() == 1 && p@[0] == '.' {
                assert(p@ =~= seq!['.']);
            }
        }
        if p.unicode_len() > 0 && !is_dot {
            r.push(pieces[i].clone());
            assert(views(r@) =~= views(before).push(pieces@[i as int]@));
        }
        i += 1;
    }
    assert(views(pieces@).take(pieces@.len() as int) =~= views(pieces@));
    r
}

/// The last component of a path of at least two components.
pub fn name_from_relative_path(relative_path: &str) -> (r: String)
    requires
        components(relative_path@).len() >= 2,
    ensures
        r@ == components(relative_path@).last(),
{
    let mut comps = path_components(relative_path);
    let n = comps.len();
    assert(comps@[n - 1]@ == views(comps@)[n - 1]);
    comps.remove(n - 1)
}

/// Whether a path is relative.
pub fn path_is_relative(path: &str) -> (r: bool)
    ensures
        r == is_relative(path@),
{
    path.unicode_len() == 0 || path.get_char(0) != '/'
}

/// `relative` placed under `base`.
pub fn join_paths(base: &str, relative: &str) -> (r: String)
    ensures
        r@ == join_path(base@, relative@),
{
    let n = base.unicode_len();
    let mut r = base.to_string();
    if n > 0 && base.get_char(n - 1) != '/' {
        r.push('/');
    }
    r.append(relative);
    r
}

} // verus!
