//! The address-to-index memory map: a bidirectional map from the `bimap`
//! crate, specified for verified callers.
//!
//! The map's contents are named by [`bm_fwd`], the left-to-right pairing it
//! holds. `bimap` keeps the pairing a bijection: each left value pairs with
//! exactly one right value and vice versa; `get_by_right` consults the mirror
//! of the same pairing.

use vstd::prelude::*;

verus! {

#[verifier::external_type_specification]
#[verifier::external_body]
#[verifier::reject_recursive_types(L)]
#[verifier::reject_recursive_types(R)]
#[verifier::reject_recursive_types(LS)]
#[verifier::reject_recursive_types(RS)]
pub struct ExBiHashMap<L, R, LS, RS>(bimap::BiHashMap<L, R, LS, RS>);

/// The left-to-right pairs that an address-to-index bimap holds.
pub uninterp spec fn bm_fwd(m: bimap::BiMap<u64, usize>) -> Map<u64, usize>;

/// Relies on bimap::BiHashMap::new: a freshly created bimap holds no pairs.
#[verifier::external_body]
pub(crate) fn bm_new() -> (r: bimap::BiMap<u64, usize>)
    ensures
        forall|a: u64| !bm_fwd(r).dom().contains(a),
{
    bimap::BiMap::new()
}

/// Relies on bimap::BiHashMap::insert: when neither the left nor the right
/// value is present, the call adds exactly the given pair.
#[verifier::external_body]
pub(crate) fn bm_insert(m: &mut bimap::BiMap<u64, usize>, left: u64, right: usize)
    requires
        !bm_fwd(*old(m)).dom().contains(left),
        forall|a: u64| bm_fwd(*old(m)).dom().contains(a) ==> bm_fwd(*old(m))[a] != right,
    ensures
        bm_fwd(*final(m)) == bm_fwd(*old(m)).insert(left, right),
{
    m.insert(left, right);
}

/// Relies on bimap::BiHashMap::get_by_left: returns the right value paired
/// with the given left value, if any.
#[verifier::external_body]
pub(crate) fn bm_get_by_left(m: &bimap::BiMap<u64, usize>, left: u64) -> (r: Option<usize>)
    ensures
        r == (if bm_fwd(*m).dom().contains(left) {
            Some(bm_fwd(*m)[left])
        } else {
            None::<usize>
        }),
{
    m.get_by_left(&left).copied()
}

/// Relies on bimap::BiHashMap::get_by_right: returns the left value paired
/// with the given right value, if any; the pairing is a bijection, so a
/// `None` means no pair holds that right value.
#[verifier::external_body]
pub(crate) fn bm_get_by_right(m: &bimap::BiMap<u64, usize>, right: usize) -> (r: Option<u64>)
    ensures
        match r {
            Some(left) => bm_fwd(*m).dom().contains(left) && bm_fwd(*m)[left] == right,
            None => forall|a: u64| bm_fwd(*m).dom().contains(a) ==> bm_fwd(*m)[a] != right,
        },
{
    m.get_by_right(&right).copied()
}

} // verus!
