//! What the crate takes from `soroban_sdk`: the value types that run through
//! its records, cloning and equality of those values, and the reading of host
//! vectors.

use soroban_sdk::{Address, Bytes, BytesN, Symbol};
use vstd::prelude::*;

verus! {

/// `soroban_sdk::Address`, the identity of an account or a contract.  Two
/// addresses are one value when they name the same account or contract.
#[verifier::external_type_specification]
#[verifier::external_body]
pub struct ExAddress(Address);

/// `soroban_sdk::Vec`, a growable vector that lives in the host.
#[verifier::external_type_specification]
#[verifier::external_body]
#[verifier::reject_recursive_types(T)]
pub struct ExHostVec<T>(soroban_sdk::Vec<T>);

/// `soroban_sdk::Symbol`, a short identifier.
#[verifier::external_type_specification]
#[verifier::external_body]
pub struct ExSymbol(Symbol);

/// `soroban_sdk::Bytes`, a byte string.
#[verifier::external_type_specification]
#[verifier::external_body]
pub struct ExBytes(Bytes);

/// `soroban_sdk::BytesN`, a byte string of fixed length.
#[verifier::external_type_specification]
#[verifier::external_body]
pub struct ExBytesN<const N: usize>(BytesN<N>);

/// `Address::clone`: the copy names the same account or contract.
pub assume_specification[ <Address as Clone>::clone ](a: &Address) -> (r: Address)
    ensures
        r == *a,
;

/// `soroban_sdk::Vec::clone`: the copy is the same vector.
pub assume_specification<T>[ <soroban_sdk::Vec<T> as Clone>::clone ](
    v: &soroban_sdk::Vec<T>,
) -> (r: soroban_sdk::Vec<T>)
    ensures
        r == *v,
;

/// `BytesN::clone`: the copy is the same byte string.
pub assume_specification<const N: usize>[ <BytesN<N> as Clone>::clone ](b: &BytesN<N>) -> (r:
    BytesN<N>)
    ensures
        r == *b,
;

/// `Address::eq`: true exactly for two addresses that name the same account or
/// contract.
#[verifier::external_body]
pub(crate) fn same_address(a: &Address, b: &Address) -> (same: bool)
    ensures
        same == (*a == *b),
{
    a == b
}

/// The items of a host vector of amounts, in order.  The host does not hold the
/// items to the type of the vector: `None` stands where an item is no `i128`.
pub uninterp spec fn amounts_in(v: soroban_sdk::Vec<i128>) -> Seq<Option<i128>>;

/// `soroban_sdk::Vec::len`: the number of items.
#[verifier::external_body]
pub(crate) fn amounts_len(v: &soroban_sdk::Vec<i128>) -> (n: u32)
    ensures
        n == amounts_in(*v).len(),
{
    v.len()
}

/// `soroban_sdk::Vec::try_get`: the item at a position, where there is one and
/// it is an `i128`.
#[verifier::external_body]
pub(crate) fn amount_at(v: &soroban_sdk::Vec<i128>, i: u32) -> (amount: Option<i128>)
    ensures
        amount == if i < amounts_in(*v).len() {
            amounts_in(*v)[i as int]
        } else {
            None
        },
{
    v.try_get(i).unwrap_or(None)
}

/// The items of a host vector of milestone indices, in order, with `None` where
/// an item is no `u32`.
pub uninterp spec fn indices_in(v: soroban_sdk::Vec<u32>) -> Seq<Option<u32>>;

/// `soroban_sdk::Vec::len`: the number of items.
#[verifier::external_body]
pub(crate) fn indices_len(v: &soroban_sdk::Vec<u32>) -> (n: u32)
    ensures
        n == indices_in(*v).len(),
{
    v.len()
}

/// `soroban_sdk::Vec::try_get`: the item at a position, where there is one and
/// it is a `u32`.
#[verifier::external_body]
pub(crate) fn index_at(v: &soroban_sdk::Vec<u32>, i: u32) -> (index: Option<u32>)
    ensures
        index == if i < indices_in(*v).len() {
            indices_in(*v)[i as int]
        } else {
            None
        },
{
    v.try_get(i).unwrap_or(None)
}

} // verus!
