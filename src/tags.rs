//! Free-text tag input: comma-separated literal names.
use vstd::prelude::*;
use crate::text::{split_char, split_on, views};

verus! {

/// `xs` without repeats, each name kept at its first occurrence.
pub open spec fn dedup(xs: Seq<Seq<char>>) -> Seq<Seq<char>>
    decreases xs.len(),
{
    if xs.len() == 0 {
        xs
    } else {
        let d = dedup(xs.drop_last());
        if d.contains(xs.last()) {
            d
        } else {
            d.push(xs.last())
        }
    }
}

/// Distinct tag names of a tag field: none for an empty field, else the
/// comma-separated pieces without repeats.
pub open spec fn tag_list(s: Seq<char>) -> Seq<Seq<char>> {
    if s.len() == 0 {
        Seq::empty()
    } else {
        dedup(split_on(s, ','))
    }
}

pub proof fn lemma_dedup(xs: Seq<Seq<char>>)
    ensures
        dedup(xs).no_duplicates(),
        dedup(xs).to_set() == xs.to_set(),
    decreases xs.len(),
{
    if xs.len() > 0 {
        let p = xs.drop_last();
        lemma_dedup(p);
        let d = dedup(p);
        assert(xs =~= p.push(xs.last()));
        assert(xs.to_set() =~= p.to_set().insert(xs.last())) by {
            assert forall|x| xs.to_set().contains(x) <==> p.to_set().insert(xs.last()).contains(
                x,
            ) by {
                if xs.contains(x) && x != xs.last() {
                    let i = choose|i: int| 0 <= i < xs.len() && xs[i] == x;
                    assert(p[i] == x);
                }
                if p.contains(x) {
                    let i = choose|i: int| 0 <= i < p.len() && p[i] == x;
                    assert(xs[i] == x);
                }
                if x == xs.last() {
                    assert(xs[xs.len() - 1] == x);
                }
            }
        }
        if !d.contains(xs.last()) {
            let e = d.push(xs.last());
            assert(e.to_set() =~= d.to_set().insert(xs.last())) by {
                assert forall|x| e.to_set().contains(x) <==> d.to_set().insert(
                    xs.last(),
                ).contains(x) by {
                    if e.contains(x) && x != xs.last() {
                        let i = choose|i: int| 0 <= i < e.len() && e[i] == x;
                        assert(d[i] == x);
                    }
                    if d.contains(x) {
                        let i = choose|i: int| 0 <= i < d.len() && d[i] == x;
                        assert(e[i] == x);
                    }
                    if x == xs.last() {
                        assert(e[e.len() - 1] == x);
                    }
                }
            }
        } else {
            assert(d.to_set().contains(xs.last()));
            assert(d.to_set().insert(xs.last()) =~= d.to_set());
        }
    }
}

/// Whether `v` holds a string equal to `s`.
pub fn contains_str(v: &Vec<String>, s: &String) -> (r: bool)
    ensures
        r == views(v@).contains(s@),
{
    let mut i: usize = 0;
    while i < v.len()
        invariant
            i <= v.len(),
            forall|j: int| 0 <= j < i ==> v@[j]@ != s@,
        decreases v.len() - i,
    {
        if v[i] == *s {
            assert(views(v@)[i as int] == s@);
            return true;
        }
        i = i + 1;
    }
    proof {
        if views(v@).contains(s@) {
            let j = choose|j: int| 0 <= j < views(v@).len() && views(v@)[j] == s@;
            assert(v@[j]@ == s@);
        }
    }
    false
}

/// The distinct tag names of a tag field, in order of first appearance.
pub fn tag_names(tags: &str) -> (r: Vec<String>)
    ensures
        views(r@) == tag_list(tags@),
{
    if tags.is_empty() {
        let r: Vec<String> = Vec::new();
        assert(views(r@) =~= Seq::<Seq<char>>::empty());
        return r;
    }
    let pieces = split_char(tags, ',');
    let mut out: Vec<String> = Vec::new();
    let mut i: usize = 0;
    assert(views(pieces@).subrange(0, 0) =~= Seq::<Seq<char>>::empty());
    assert(views(out@) =~= Seq::<Seq<char>>::empty());
    while i < pieces.len()
        invariant
            i <= pieces.len(),
            views(out@) == dedup(views(pieces@).subrange(0, i as int)),
        decreases pieces.len() - i,
    {
        let ghost pre = views(pieces@).subrange(0, i as int + 1);
        assert(pre.drop_last() =~= views(pieces@).subrange(0, i as int));
        assert(pre.last() == pieces@[i as int]@);
        if !contains_str(&out, &pieces[i]) {
            let ghost before = out@;
            out.push(pieces[i].clone());
            assert(views(out@) =~= views(before).push(pieces@[i as int]@));
        }
        i = i + 1;
    }
    assert(views(pieces@).subrange(0, pieces.len() as int) =~= views(pieces@));
    out
}

} // verus!
