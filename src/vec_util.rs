//! Moving the elements that a predicate selects out of a vector.

use vstd::prelude::*;

verus! {

/// The elements of `s` whose mark in `marks` is `keep`, in order.
pub open spec fn pick<T>(s: Seq<T>, marks: Seq<bool>, keep: bool) -> Seq<T>
    decreases s.len(),
{
    if s.len() == 0 {
        Seq::empty()
    } else {
        let p = pick(s.drop_last(), marks, keep);
        if marks[s.len() - 1] == keep {
            p.push(s.last())
        } else {
            p
        }
    }
}

/// Marks beyond the length of `s` do not matter.
proof fn lemma_pick_ignores_later_marks<T>(s: Seq<T>, marks: Seq<bool>, more: Seq<bool>, keep: bool)
    requires
        s.len() <= marks.len(),
        more.len() >= marks.len(),
        more.subrange(0, marks.len() as int) == marks,
    ensures
        pick(s, more, keep) == pick(s, marks, keep),
    decreases s.len(),
{
    if s.len() > 0 {
        lemma_pick_ignores_later_marks(s.drop_last(), marks, more, keep);
        assert(more[s.len() - 1] == more.subrange(0, marks.len() as int)[s.len() - 1]);
    }
}

/// Moves the elements of `v` for which `pred` holds into the returned vector and
/// keeps the others in `v`; both keep the order they had in `v`.
pub fn extract_if<T, F: Fn(&T) -> bool>(v: &mut Vec<T>, pred: F) -> (r: Vec<T>)
    requires
        forall|x: &T| #[trigger] pred.requires((x,)),
    ensures
        exists|marks: Seq<bool>|
            {
                &&& marks.len() == old(v)@.len()
                &&& forall|i: int|
                    0 <= i < marks.len() ==> pred.ensures((&old(v)@[i],), #[trigger] marks[i])
                &&& r@ == pick(old(v)@, marks, true)
                &&& final(v)@ == pick(old(v)@, marks, false)
            },
{
    let ghost input = v@;
    let n = v.len();
    let mut rest: Vec<T> = Vec::new();
    std::mem::swap(v, &mut rest);
    let mut out: Vec<T> = Vec::new();
    let ghost mut marks: Seq<bool> = Seq::empty();
    let mut k: usize = 0;
    assert(rest@.subrange(0, rest@.len() as int) =~= input);
    while rest.len() > 0
        invariant
            forall|x: &T| #[trigger] pred.requires((x,)),
            k + rest@.len() == input.len(),
            input.len() == n,
            rest@ == input.subrange(k as int, input.len() as int),
            marks.len() == k,
            forall|i: int| 0 <= i < k ==> pred.ensures((&input[i],), #[trigger] marks[i]),
            out@ == pick(input.subrange(0, k as int), marks, true),
            v@ == pick(input.subrange(0, k as int), marks, false),
        decreases rest@.len(),
    {
        let x = rest.remove(0);
        assert(x == input[k as int]);
        let b = pred(&x);
        let ghost marks1 = marks.push(b);
        let ghost prefix = input.subrange(0, k + 1);
        assert(prefix.drop_last() =~= input.subrange(0, k as int));
        assert(marks1.subrange(0, marks.len() as int) =~= marks);
        proof {
            lemma_pick_ignores_later_marks(input.subrange(0, k as int), marks, marks1, true);
            lemma_pick_ignores_later_marks(input.subrange(0, k as int), marks, marks1, false);
        }
        if b {
            out.push(x);
        } else {
            v.push(x);
        }
        proof {
            marks = marks1;
        }
        assert(rest@ =~= input.subrange(k + 1, input.len() as int));
        k = k + 1;
    }
    assert(input.subrange(0, k as int) =~= input);
    out
}

} // verus!
