//! Copies that keep everything a value's view holds.
use vstd::prelude::*;

verus! {

pub trait Duplicate: DeepView + Sized {
    fn duplicate(&self) -> (r: Self)
        ensures
            r.deep_view() == self.deep_view(),
    ;
}

impl Duplicate for String {
    fn duplicate(&self) -> (r: String) {
        self.clone()
    }
}

pub fn duplicate_opt<T: Duplicate>(o: &Option<T>) -> (r: Option<T>)
    ensures
        r.deep_view() == o.deep_view(),
{
    match o {
        Some(x) => Some(x.duplicate()),
        None => None,
    }
}

pub fn duplicate_all<T: Duplicate>(v: &Vec<T>) -> (r: Vec<T>)
    ensures
        r.deep_view() == v.deep_view(),
{
    let mut out: Vec<T> = Vec::new();
    let mut i: usize = 0;
    while i < v.len()
        invariant
            i <= v.len(),
            out.deep_view() == v.deep_view().take(i as int),
        decreases v.len() - i,
    {
        let ghost before = out;
        out.push(v[i].duplicate());
        proof {
            lemma_push(before, out);
            assert(v.deep_view().take(i + 1) =~= v.deep_view().take(i as int).push(
                v@[i as int].deep_view(),
            ));
        }
        i += 1;
    }
    assert(v.deep_view().take(v.len() as int) =~= v.deep_view());
    out
}

pub fn duplicate_opt_all<T: Duplicate>(o: &Option<Vec<T>>) -> (r: Option<Vec<T>>)
    ensures
        r.deep_view() == o.deep_view(),
{
    match o {
        Some(v) => Some(duplicate_all(v)),
        None => None,
    }
}

/// What pushing one item does to the view of a vector.
pub proof fn lemma_push<T: DeepView>(before: Vec<T>, after: Vec<T>)
    requires
        after@.len() == before@.len() + 1,
        after@ == before@.push(after@.last()),
    ensures
        after.deep_view() == before.deep_view().push(after@.last().deep_view()),
{
    assert(after.deep_view() =~= before.deep_view().push(after@.last().deep_view()));
}

/// Appends a copy of every item of `more`.
pub fn extend_with<T: Duplicate>(out: &mut Vec<T>, more: &Vec<T>)
    ensures
        final(out).deep_view() == old(out).deep_view() + more.deep_view(),
{
    let ghost start = out.deep_view();
    let mut i: usize = 0;
    assert(start + more.deep_view().take(0) =~= start);
    while i < more.len()
        invariant
            i <= more.len(),
            out.deep_view() == start + more.deep_view().take(i as int),
        decreases more.len() - i,
    {
        let ghost before = *out;
        out.push(more[i].duplicate());
        proof {
            lemma_push(before, *out);
            assert(start + more.deep_view().take(i + 1) =~= (start + more.deep_view().take(
                i as int,
            )).push(more@[i as int].deep_view()));
        }
        i += 1;
    }
    assert(more.deep_view().take(more.len() as int) =~= more.deep_view());
}

} // verus!
