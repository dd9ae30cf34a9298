use vstd::prelude::*;
use rand::rngs::ThreadRng;
use rand::Rng;

verus! {

/// The random number generator of the current thread (`rand::rngs::ThreadRng`).
#[verifier::external_type_specification]
#[verifier::external_body]
pub struct ExThreadRng(ThreadRng);

/// `rand::thread_rng`: the generator of the current thread. Nothing is stated of it.
#[verifier::external_body]
pub(crate) fn thread_rng() -> ThreadRng {
    rand::thread_rng()
}

/// `Rng::gen_range` on the range `0..=i`, which is never empty: a number from 0 through
/// `i`; which one is up to chance.
#[verifier::external_body]
pub(crate) fn gen_index_upto(rng: &mut ThreadRng, i: usize) -> (j: usize)
    ensures
        j <= i,
{
    rng.gen_range(0..=i)
}

/// `Rng::gen::<u64>`: a number left to chance; nothing is stated of it.
#[verifier::external_body]
pub(crate) fn gen_u64(rng: &mut ThreadRng) -> u64 {
    rng.gen::<u64>()
}

/// `slice::swap`: exchanges the elements at two positions.
#[verifier::external_body]
pub(crate) fn swap_elements<T>(v: &mut Vec<T>, i: usize, j: usize)
    requires
        i < old(v)@.len(),
        j < old(v)@.len(),
    ensures
        final(v)@ == old(v)@.update(i as int, old(v)@[j as int]).update(j as int, old(v)@[i as int]),
{
    v.swap(i, j);
}

proof fn lemma_swap_keeps_multiset<T>(s: Seq<T>, i: int, j: int)
    requires
        0 <= i < s.len(),
        0 <= j < s.len(),
    ensures
        s.update(i, s[j]).update(j, s[i]).to_multiset() == s.to_multiset(),
{
    broadcast use vstd::seq_lib::to_multiset_update;
    broadcast use vstd::multiset::group_multiset_axioms;
    let t = s.update(i, s[j]);
    assert(t[j] == s[j]);
    if i == j {
        assert(s.update(i, s[j]).update(j, s[i]) =~= s);
    } else {
        assert(t.to_multiset() == s.to_multiset().insert(s[j]).remove(s[i]));
        assert(t.update(j, s[i]).to_multiset() == t.to_multiset().insert(s[i]).remove(s[j]));
        assert(s.to_multiset().insert(s[j]).remove(s[i]).insert(s[i]).remove(s[j]) =~= s.to_multiset()) by {
            vstd::seq_lib::to_multiset_contains(s, s[i]);
            assert(s.contains(s[i])) by { assert(s[i] == s[i]); }
        }
    }
}

/// `s` with the elements at positions `i` and `j` exchanged.
pub open spec fn swapped<T>(s: Seq<T>, i: int, j: int) -> Seq<T> {
    s.update(i, s[j]).update(j, s[i])
}

/// The Fisher-Yates steps with the drawn indices: step `k` exchanges the element at
/// position `len - 1 - k` with the one at `draws[k]`.
pub open spec fn apply_swaps<T>(s: Seq<T>, draws: Seq<usize>) -> Seq<T>
    decreases draws.len(),
{
    if draws.len() == 0 {
        s
    } else {
        swapped(apply_swaps(s, draws.drop_last()), s.len() - draws.len(), draws.last() as int)
    }
}

/// Indices that Fisher-Yates can draw for `n` elements: one for each position from the
/// last down to the second, each at most that position.
pub open spec fn valid_draws(n: nat, draws: Seq<usize>) -> bool {
    &&& draws.len() == (if n < 2 { 0 } else { n - 1 })
    &&& forall|k: int| 0 <= k < draws.len() ==> #[trigger] draws[k] <= n - 1 - k
}

/// Shuffles the elements in place with the Fisher-Yates method and gives back the
/// indices it drew: the result is the one those draws give, and so it holds the same
/// elements as before, as many times each. Which indices are drawn is up to chance.
pub fn shuffle_vector<T>(vector: &mut Vec<T>) -> (draws: Ghost<Seq<usize>>)
    ensures
        valid_draws(old(vector)@.len(), draws@),
        final(vector)@ == apply_swaps(old(vector)@, draws@),
        final(vector)@.len() == old(vector)@.len(),
        final(vector)@.to_multiset() == old(vector)@.to_multiset(),
{
    let ghost v0 = vector@;
    let mut rng = thread_rng();
    let len = vector.len();
    if len < 2 {
        return Ghost(Seq::empty());
    }
    let ghost mut draws: Seq<usize> = Seq::empty();
    let mut i: usize = len - 1;
    while i >= 1
        invariant
            v0 == old(vector)@,
            len == v0.len(),
            len >= 2,
            vector@.len() == len,
            i < len,
            draws.len() == len - 1 - i,
            forall|k: int| 0 <= k < draws.len() ==> #[trigger] draws[k] <= len - 1 - k,
            vector@ == apply_swaps(v0, draws),
            vector@.to_multiset() == v0.to_multiset(),
        decreases i,
    {
        let j = gen_index_upto(&mut rng, i);
        proof { lemma_swap_keeps_multiset(vector@, i as int, j as int); }
        swap_elements(vector, i, j);
        proof {
            let next = draws.push(j);
            assert(next.drop_last() =~= draws);
            draws = next;
        }
        i = i - 1;
    }
    Ghost(draws)
}

} // verus!
