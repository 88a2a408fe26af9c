//! `SmallVec<[u128; 12]>` of the outside crate, behind trusted wrappers.
//!
//! The outside type is held in a private field: Verus sees a value of it only
//! through two names, the items it holds and the capacity it records. Each
//! wrapper states, over those names, what the crate's source does.
use vstd::prelude::*;
use crate::small_vec::{dedup_seq, exact_growth_overflows, exact_grown, growth_overflows, grown, lex_order, repeat, Order};

verus! {

/// A small vector of `u128` with room for 12 items inline.
#[verifier::external_body]
pub struct SmallVecU128N12 {
    inner: smallvec::SmallVec<[u128; 12]>,
}

/// The items a `SmallVec<[u128; 12]>` holds, in order.
pub uninterp spec fn sv_u128n12_items(v: SmallVecU128N12) -> Seq<u128>;

/// The capacity a `SmallVec<[u128; 12]>` records (12 while it is inline).
pub uninterp spec fn sv_u128n12_cap(v: SmallVecU128N12) -> nat;

impl View for SmallVecU128N12 {
    type V = Seq<u128>;

    open spec fn view(&self) -> Seq<u128> {
        sv_u128n12_items(*self)
    }
}

impl SmallVecU128N12 {
    /// The capacity that `capacity()` reports.
    pub open spec fn cap(self) -> nat {
        sv_u128n12_cap(self)
    }

    /// What every vector of this type satisfies: it holds at most its
    /// capacity, is never smaller than its inline size, and a heap buffer
    /// never exceeds `isize::MAX` bytes.
    pub open spec fn wf(self) -> bool {
        &&& self@.len() <= self.cap()
        &&& self.cap() >= 12
        &&& self.cap() * vstd::layout::size_of::<u128>() <= isize::MAX || self.cap() == 12
    }
}

/// `ToSmallVec::to_smallvec` on a slice: a copy of it, as `from_slice` makes;
/// inline when it has at most 12 items, else in a heap buffer whose
/// capacity nothing here states.
#[verifier::external_body]
pub(crate) fn small_vec_u128n12_to_small_vec(slice: &[u128]) -> (r: SmallVecU128N12)
    ensures
        r.wf(),
        sv_u128n12_items(r) == slice@,
        slice@.len() <= 12 ==> sv_u128n12_cap(r) == 12,
{
    SmallVecU128N12 { inner: smallvec::ToSmallVec::to_smallvec(slice) }
}

/// `as_slice`: the items.
#[verifier::external_body]
pub(crate) fn small_vec_u128n12_as_slice(v: &SmallVecU128N12) -> (r: &[u128])
    ensures
        r@ == sv_u128n12_items(*v),
{
    v.inner.as_slice()
}

/// `into_inner`: the array of items where the vector is inline and full,
/// else the vector back.
#[verifier::external_body]
pub(crate) fn small_vec_u128n12_into_inner(v: SmallVecU128N12) -> (r: Result<[u128; 12], SmallVecU128N12>)
    ensures
        r is Ok <==> (sv_u128n12_cap(v) <= 12 && sv_u128n12_items(v).len() == 12),
        r matches Ok(a) ==> a@ == sv_u128n12_items(v),
{
    match v.inner.into_inner() {
        Ok(a) => Ok(a),
        Err(inner) => Err(SmallVecU128N12 { inner }),
    }
}

} // verus!
