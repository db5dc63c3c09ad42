use crate::fulu::{AnGangJiaGangMianzi, DamingGangzi, FuluMianzi, MingKezi, MingShunzi};
use crate::tile::Tile;
use arrayvec::ArrayVec;
use vstd::prelude::*;

verus! {

/// Most entries of the list of the melds of a hand.
pub const MAX_NUM_FULU: usize = 4;

/// Most entries of the list of the tiles that can be discarded.
pub const MAX_NUM_DAPAI_CANDIDATES: usize = 14;

/// Most entries of the list of the tiles that may not be discarded.
pub const MAX_NUM_DENY: usize = 3;

/// Most entries of the list of the runs that can be claimed.
pub const MAX_NUM_CHI_CANDIDATES: usize = 5;

/// Most entries of the list of the triplets that can be claimed.
pub const MAX_NUM_PENG_CANDIDATES: usize = 2;

/// Most entries of the list of the quads that can be claimed.
pub const MAX_NUM_DAMINGGANG_CANDIDATES: usize = 1;

/// Most entries of the list of the quads that can be declared.
pub const MAX_NUM_ANGANG_JIAGANG_CANDIDATES: usize = 3;

/// The melds that the list holds, in order.
pub uninterp spec fn fulu_items(list: ArrayVec<FuluMianzi, 4>) -> Seq<FuluMianzi>;

/// The tiles that the list holds, in order.
pub uninterp spec fn dapai_items(list: ArrayVec<Tile, 14>) -> Seq<Tile>;

/// The indexes that the list holds, in order.
pub uninterp spec fn deny_items(list: ArrayVec<usize, 3>) -> Seq<usize>;

/// The runs that the list holds, in order.
pub uninterp spec fn chi_items(list: ArrayVec<MingShunzi, 5>) -> Seq<MingShunzi>;

/// The triplets that the list holds, in order.
pub uninterp spec fn peng_items(list: ArrayVec<MingKezi, 2>) -> Seq<MingKezi>;

/// The quads that the list holds, in order.
pub uninterp spec fn daminggang_items(list: ArrayVec<DamingGangzi, 1>) -> Seq<DamingGangzi>;

/// The quads that the list holds, in order.
pub uninterp spec fn angang_items(list: ArrayVec<AnGangJiaGangMianzi, 3>) -> Seq<AnGangJiaGangMianzi>;

/// `ArrayVec::new` of arrayvec: an empty vector.
#[verifier::external_body]
pub(crate) fn fulu_list_new() -> (list: ArrayVec<FuluMianzi, 4>)
    ensures
        fulu_items(list) == Seq::<FuluMianzi>::empty(),
{
    ArrayVec::new()
}

/// `ArrayVec::push` of arrayvec: appends the element at the end. It panics
/// when the vector is full, which the precondition excludes.
#[verifier::external_body]
pub(crate) fn fulu_list_push(list: &mut ArrayVec<FuluMianzi, 4>, element: FuluMianzi)
    requires
        fulu_items(*old(list)).len() < MAX_NUM_FULU,
    ensures
        fulu_items(*final(list)) == fulu_items(*old(list)).push(element),
{
    list.push(element);
}

/// `ArrayVec::as_slice` of arrayvec: the elements of the vector as a slice.
/// A vector never holds more elements than its capacity of 4.
#[verifier::external_body]
pub(crate) fn fulu_list_as_slice(list: &ArrayVec<FuluMianzi, 4>) -> (items: &[FuluMianzi])
    ensures
        items@ == fulu_items(*list),
        items@.len() <= MAX_NUM_FULU,
{
    list.as_slice()
}

/// `ArrayVec::new` of arrayvec: an empty vector.
#[verifier::external_body]
pub(crate) fn dapai_list_new() -> (list: ArrayVec<Tile, 14>)
    ensures
        dapai_items(list) == Seq::<Tile>::empty(),
{
    ArrayVec::new()
}

/// `ArrayVec::push` of arrayvec: appends the element at the end. It panics
/// when the vector is full, which the precondition excludes.
#[verifier::external_body]
pub(crate) fn dapai_list_push(list: &mut ArrayVec<Tile, 14>, element: Tile)
    requires
        dapai_items(*old(list)).len() < MAX_NUM_DAPAI_CANDIDATES,
    ensures
        dapai_items(*final(list)) == dapai_items(*old(list)).push(element),
{
    list.push(element);
}

/// `ArrayVec::new` of arrayvec: an empty vector.
#[verifier::external_body]
pub(crate) fn deny_list_new() -> (list: ArrayVec<usize, 3>)
    ensures
        deny_items(list) == Seq::<usize>::empty(),
{
    ArrayVec::new()
}

/// `ArrayVec::push` of arrayvec: appends the element at the end. It panics
/// when the vector is full, which the precondition excludes.
#[verifier::external_body]
pub(crate) fn deny_list_push(list: &mut ArrayVec<usize, 3>, element: usize)
    requires
        deny_items(*old(list)).len() < MAX_NUM_DENY,
    ensures
        deny_items(*final(list)) == deny_items(*old(list)).push(element),
{
    list.push(element);
}

/// `ArrayVec::as_slice` of arrayvec: the elements of the vector as a slice.
/// A vector never holds more elements than its capacity of 3.
#[verifier::external_body]
pub(crate) fn deny_list_as_slice(list: &ArrayVec<usize, 3>) -> (items: &[usize])
    ensures
        items@ == deny_items(*list),
        items@.len() <= MAX_NUM_DENY,
{
    list.as_slice()
}

/// `ArrayVec::new` of arrayvec: an empty vector.
#[verifier::external_body]
pub(crate) fn chi_list_new() -> (list: ArrayVec<MingShunzi, 5>)
    ensures
        chi_items(list) == Seq::<MingShunzi>::empty(),
{
    ArrayVec::new()
}

/// `ArrayVec::push` of arrayvec: appends the element at the end. It panics
/// when the vector is full, which the precondition excludes.
#[verifier::external_body]
pub(crate) fn chi_list_push(list: &mut ArrayVec<MingShunzi, 5>, element: MingShunzi)
    requires
        chi_items(*old(list)).len() < MAX_NUM_CHI_CANDIDATES,
    ensures
        chi_items(*final(list)) == chi_items(*old(list)).push(element),
{
    list.push(element);
}

/// `ArrayVec::new` of arrayvec: an empty vector.
#[verifier::external_body]
pub(crate) fn peng_list_new() -> (list: ArrayVec<MingKezi, 2>)
    ensures
        peng_items(list) == Seq::<MingKezi>::empty(),
{
    ArrayVec::new()
}

/// `ArrayVec::push` of arrayvec: appends the element at the end. It panics
/// when the vector is full, which the precondition excludes.
#[verifier::external_body]
pub(crate) fn peng_list_push(list: &mut ArrayVec<MingKezi, 2>, element: MingKezi)
    requires
        peng_items(*old(list)).len() < MAX_NUM_PENG_CANDIDATES,
    ensures
        peng_items(*final(list)) == peng_items(*old(list)).push(element),
{
    list.push(element);
}

/// `ArrayVec::new` of arrayvec: an empty vector.
#[verifier::external_body]
pub(crate) fn daminggang_list_new() -> (list: ArrayVec<DamingGangzi, 1>)
    ensures
        daminggang_items(list) == Seq::<DamingGangzi>::empty(),
{
    ArrayVec::new()
}

/// `ArrayVec::push` of arrayvec: appends the element at the end. It panics
/// when the vector is full, which the precondition excludes.
#[verifier::external_body]
pub(crate) fn daminggang_list_push(list: &mut ArrayVec<DamingGangzi, 1>, element: DamingGangzi)
    requires
        daminggang_items(*old(list)).len() < MAX_NUM_DAMINGGANG_CANDIDATES,
    ensures
        daminggang_items(*final(list)) == daminggang_items(*old(list)).push(element),
{
    list.push(element);
}

/// `ArrayVec::new` of arrayvec: an empty vector.
#[verifier::external_body]
pub(crate) fn angang_list_new() -> (list: ArrayVec<AnGangJiaGangMianzi, 3>)
    ensures
        angang_items(list) == Seq::<AnGangJiaGangMianzi>::empty(),
{
    ArrayVec::new()
}

/// `ArrayVec::push` of arrayvec: appends the element at the end. It panics
/// when the vector is full, which the precondition excludes.
#[verifier::external_body]
pub(crate) fn angang_list_push(list: &mut ArrayVec<AnGangJiaGangMianzi, 3>, element: AnGangJiaGangMianzi)
    requires
        angang_items(*old(list)).len() < MAX_NUM_ANGANG_JIAGANG_CANDIDATES,
    ensures
        angang_items(*final(list)) == angang_items(*old(list)).push(element),
{
    list.push(element);
}

/// Writing through `IndexMut` of an `ArrayVec` of arrayvec: puts the meld
/// in the place `index` and leaves the others as they are. It panics for an
/// index beyond the elements held, which the precondition excludes.
#[verifier::external_body]
pub(crate) fn fulu_list_set(list: &mut ArrayVec<FuluMianzi, 4>, index: usize, element: FuluMianzi)
    requires
        index < fulu_items(*old(list)).len(),
    ensures
        fulu_items(*final(list)) == fulu_items(*old(list)).update(index as int, element),
{
    list[index] = element;
}

} // verus!
