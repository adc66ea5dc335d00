//! Sequences that are put together piece by piece.

use vstd::prelude::*;

verus! {

/// What `f` yields for each element of `s`, one after the other.
pub open spec fn flat<A, B>(s: Seq<A>, f: spec_fn(A) -> Seq<B>) -> Seq<B>
    decreases s.len(),
{
    if s.len() == 0 {
        Seq::empty()
    } else {
        flat(s.drop_last(), f) + f(s.last())
    }
}

/// One more element adds what `f` yields for it.
pub proof fn flat_step<A, B>(s: Seq<A>, f: spec_fn(A) -> Seq<B>, i: int)
    requires
        0 <= i < s.len(),
    ensures
        flat(s.take(i + 1), f) == flat(s.take(i), f) + f(s[i]),
{
    assert(s.take(i + 1).drop_last() =~= s.take(i));
}

/// What is in the whole comes from a piece.
pub proof fn flat_comes_from<A, B>(s: Seq<A>, f: spec_fn(A) -> Seq<B>, k: int) -> (i: int)
    requires
        0 <= k < flat(s, f).len(),
    ensures
        0 <= i < s.len(),
        f(s[i]).contains(flat(s, f)[k]),
    decreases s.len(),
{
    let init = flat(s.drop_last(), f);
    if k < init.len() {
        let i = flat_comes_from(s.drop_last(), f, k);
        assert(s.drop_last()[i] == s[i]);
        i
    } else {
        assert(f(s.last())[k - init.len()] == flat(s, f)[k]);
        s.len() - 1
    }
}

/// What is in a piece is in the whole.
pub proof fn flat_holds<A, B>(s: Seq<A>, f: spec_fn(A) -> Seq<B>, i: int, b: B)
    requires
        0 <= i < s.len(),
        f(s[i]).contains(b),
    ensures
        flat(s, f).contains(b),
    decreases s.len(),
{
    let init = flat(s.drop_last(), f);
    let whole = flat(s, f);
    if i < s.len() - 1 {
        assert(s.drop_last()[i] == s[i]);
        flat_holds(s.drop_last(), f, i, b);
        let k = init.index_of(b);
        assert(whole[k] == b);
    } else {
        let k = f(s.last()).index_of(b);
        assert(whole[init.len() + k] == b);
    }
}

/// Pieces of at most one item that are not alike make a whole without
/// duplicates.
pub proof fn flat_has_no_duplicates<A, B>(s: Seq<A>, f: spec_fn(A) -> Seq<B>)
    requires
        forall|i: int| 0 <= i < s.len() ==> f(#[trigger] s[i]).len() <= 1,
        forall|i: int, j: int|
            0 <= i < j < s.len() && f(#[trigger] s[i]).len() == 1 && f(#[trigger] s[j]).len() == 1
                ==> f(s[i])[0] != f(s[j])[0],
    ensures
        flat(s, f).no_duplicates(),
    decreases s.len(),
{
    if s.len() > 0 {
        let rest = s.drop_last();
        assert forall|i: int| 0 <= i < rest.len() implies f(#[trigger] rest[i]).len() <= 1 by {
            assert(rest[i] == s[i]);
        }
        assert forall|i: int, j: int|
            0 <= i < j < rest.len() && f(#[trigger] rest[i]).len() == 1 && f(
                #[trigger] rest[j],
            ).len() == 1 implies f(rest[i])[0] != f(rest[j])[0] by {
            assert(rest[i] == s[i] && rest[j] == s[j]);
        }
        flat_has_no_duplicates(rest, f);
        let last = s[s.len() - 1];
        assert forall|k: int| 0 <= k < flat(rest, f).len() && f(last).len() == 1 implies flat(
            rest,
            f,
        )[k] != f(last)[0] by {
            let i = flat_comes_from(rest, f, k);
            assert(rest[i] == s[i]);
            let m = f(s[i]).index_of(flat(rest, f)[k]);
            assert(f(s[i]).len() == 1 && m == 0);
        }
        assert(flat(s, f) =~= flat(rest, f) + f(last));
    }
}

/// Pieces that agree make wholes that agree.
pub proof fn flat_agrees<A, B>(s: Seq<A>, f: spec_fn(A) -> Seq<B>, g: spec_fn(A) -> Seq<B>)
    requires
        forall|i: int| 0 <= i < s.len() ==> f(#[trigger] s[i]) == g(s[i]),
    ensures
        flat(s, f) == flat(s, g),
    decreases s.len(),
{
    if s.len() > 0 {
        assert forall|i: int| 0 <= i < s.drop_last().len() implies f(#[trigger] s.drop_last()[i])
            == g(s.drop_last()[i]) by {
            assert(s.drop_last()[i] == s[i]);
        }
        flat_agrees(s.drop_last(), f, g);
        assert(s.last() == s[s.len() - 1]);
    }
}

} // verus!
