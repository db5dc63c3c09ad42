use mt19937::MT19937;
use rand::rngs::StdRng;
use rand::seq::SliceRandom;
use vstd::prelude::*;

verus! {

#[verifier::external_type_specification]
#[verifier::external_body]
pub struct ExStdRng(StdRng);

#[verifier::external_type_specification]
#[verifier::external_body]
pub struct ExMT19937(MT19937);

/// `Clone::clone` of the standard generator of rand: a generator in the
/// same state. Nothing is said of it here.
pub assume_specification[ <StdRng as Clone>::clone ](rng: &StdRng) -> StdRng;

/// `SliceRandom::shuffle` of rand, with the standard generator: puts the
/// items in a random order. The items afterwards are the items before, each
/// as often as before. Which order comes out depends on the generator, of
/// which nothing is said.
#[verifier::external_body]
pub(crate) fn shuffle<T>(items: &mut Vec<T>, rng: &mut StdRng)
    ensures
        final(items)@.to_multiset() == old(items)@.to_multiset(),
{
    items.shuffle(rng);
}

/// `SliceRandom::shuffle` of rand, with the Mersenne Twister of mt19937:
/// puts the items in a random order. The items afterwards are the items
/// before, each as often as before. Which order comes out depends on the
/// generator, of which nothing is said.
#[verifier::external_body]
pub(crate) fn shuffle_mt<T>(items: &mut Vec<T>, rng: &mut MT19937)
    ensures
        final(items)@.to_multiset() == old(items)@.to_multiset(),
{
    items.shuffle(rng);
}

/// `SliceRandom::choose` of rand, with the Mersenne Twister of mt19937: one
/// of the numbers, picked at random, or `None` if there is none to pick.
/// Which one comes out depends on the generator, of which nothing is said.
#[verifier::external_body]
pub(crate) fn choose_number(numbers: &[usize], rng: &mut MT19937) -> (r: Option<usize>)
    ensures
        match r {
            Some(n) => numbers@.contains(n),
            None => numbers@.len() == 0,
        },
{
    numbers.choose(rng).copied()
}

} // verus!
