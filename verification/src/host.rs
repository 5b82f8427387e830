//! The boundary to the Soroban host: hashing and the host's list type. The
//! functions whose names begin with `host_` are not proved: their contracts
//! are statements about `soroban_sdk` that the rest of the crate relies on.
//!
//! The host's generator is not here. It belongs to a running contract
//! invocation and panics outside one, which no contract on an `Env` can rule
//! out. The engine therefore says which numbers it needs and takes them as
//! an argument; the contract function draws them.

use vstd::prelude::*;

verus! {

#[verifier::external_type_specification]
#[verifier::external_body]
pub struct ExEnv(soroban_sdk::Env);

#[verifier::external_type_specification]
#[verifier::external_body]
#[verifier::reject_recursive_types(T)]
pub struct ExHostVec<T>(soroban_sdk::Vec<T>);

/// The SHA-256 digest of a byte string.
pub uninterp spec fn sha256_digest(data: Seq<u8>) -> Seq<u8>;

/// The Keccak-256 digest of a byte string.
pub uninterp spec fn keccak256_digest(data: Seq<u8>) -> Seq<u8>;

/// The items of a host list of seat indices, first to last.
pub uninterp spec fn list_items(list: soroban_sdk::Vec<u32>) -> Seq<u32>;

/// A list of seat indices that lives in the host. The field is private: a
/// list is made empty and grown item by item, by the functions of this file
/// alone, so every item of it is a `u32` that was put there.
pub struct SeatList {
    list: soroban_sdk::Vec<u32>,
}

impl View for SeatList {
    type V = Seq<u32>;

    closed spec fn view(&self) -> Seq<u32> {
        list_items(self.list)
    }
}

/// `Crypto::sha256` of twelve bytes. Trusted: the 32 bytes returned are the
/// SHA-256 digest of exactly these twelve bytes.
#[verifier::external_body]
pub(crate) fn host_sha256(env: &soroban_sdk::Env, data: &[u8; 12]) -> (out: [u8; 32])
    ensures
        out@ == sha256_digest(data@),
{
    env.crypto().sha256(&soroban_sdk::Bytes::from_array(env, data)).to_array()
}

/// `Crypto::keccak256` of twelve bytes. Trusted: the 32 bytes returned are
/// the Keccak-256 digest of exactly these twelve bytes.
#[verifier::external_body]
pub(crate) fn host_keccak256(env: &soroban_sdk::Env, data: &[u8; 12]) -> (out: [u8; 32])
    ensures
        out@ == keccak256_digest(data@),
{
    env.crypto().keccak256(&soroban_sdk::Bytes::from_array(env, data)).to_array()
}

/// `Vec::new`. Trusted: the new list is empty.
#[verifier::external_body]
fn host_list_new(env: &soroban_sdk::Env) -> (out: SeatList)
    ensures
        list_items(out.list) == Seq::<u32>::empty(),
{
    SeatList { list: soroban_sdk::Vec::new(env) }
}

/// `Vec::push_back`. Trusted: the item is appended and the others stay. The
/// host counts the items of a list in 32 bits, so the list must have room.
#[verifier::external_body]
fn host_list_push_back(seats: &mut SeatList, item: u32)
    requires
        list_items(old(seats).list).len() < u32::MAX,
    ensures
        list_items(final(seats).list) == list_items(old(seats).list).push(item),
{
    seats.list.push_back(item)
}

/// `Vec::len`. Trusted: the number of items.
#[verifier::external_body]
fn host_list_len(seats: &SeatList) -> (n: u32)
    ensures
        n == list_items(seats.list).len(),
{
    seats.list.len()
}

/// `Vec::get`. Trusted: the item at the position, or `None` at or past the
/// end. `get` panics on an item that is not a `u32`; a `SeatList` has none.
#[verifier::external_body]
fn host_list_get(seats: &SeatList, i: u32) -> (item: Option<u32>)
    ensures
        item == if i < list_items(seats.list).len() {
            Some(list_items(seats.list)[i as int])
        } else {
            None::<u32>
        },
{
    seats.list.get(i)
}

/// An empty list of seats.
pub fn new_seat_list(env: &soroban_sdk::Env) -> (out: SeatList)
    ensures
        out@ == Seq::<u32>::empty(),
{
    host_list_new(env)
}

/// Appends a seat.
pub fn push_seat(seats: &mut SeatList, item: u32)
    requires
        old(seats)@.len() < u32::MAX,
    ensures
        final(seats)@ == old(seats)@.push(item),
{
    host_list_push_back(seats, item)
}

/// The number of seats listed.
pub fn count_seats(seats: &SeatList) -> (n: u32)
    ensures
        n == seats@.len(),
{
    host_list_len(seats)
}

/// The seat at a position, or `None` at or past the end.
pub fn seat_at(seats: &SeatList, i: u32) -> (item: Option<u32>)
    ensures
        item == if i < seats@.len() {
            Some(seats@[i as int])
        } else {
            None::<u32>
        },
{
    host_list_get(seats, i)
}

} // verus!
