//! The boundary with the Soroban host: host strings and addresses in, host
//! byte strings out.
//!
//! A value of the host is a handle; what it holds is read or written by a
//! call into the host. The three calls that the task list needs are
//! declared here with what is taken on trust of them; everything else in
//! this module is proved from that, and nothing outside this module rests
//! on it.
//!
//! The host meters every call. A call that exhausts the budget of the
//! invocation ends the invocation; no contract here speaks of that.

use vstd::prelude::*;
use soroban_sdk::{Address, Bytes, Env, String};
use crate::contract::TodoContract;
use crate::task::AccountId;

verus! {

/// The host environment, with nothing known of it.
#[verifier::external_type_specification]
#[verifier::external_body]
pub struct ExEnv(soroban_sdk::Env);

/// A byte string of the host.
#[verifier::external_type_specification]
#[verifier::external_body]
pub struct ExBytes(soroban_sdk::Bytes);

/// A string of the host.
#[verifier::external_type_specification]
#[verifier::external_body]
pub struct ExString(soroban_sdk::String);

/// An address of the host.
#[verifier::external_type_specification]
#[verifier::external_body]
pub struct ExAddress(soroban_sdk::Address);

/// The bytes that a byte string of the host holds.
pub uninterp spec fn bytes_contents(bytes: Bytes) -> Seq<u8>;

/// The bytes that a string of the host holds.
pub uninterp spec fn string_contents(text: String) -> Seq<u8>;

/// The bytes of the strkey of an address.
pub uninterp spec fn address_strkey(address: Address) -> Seq<u8>;

/// `String::len` and `String::copy_into_slice` of the SDK: the bytes of a
/// host string, copied into a buffer of exactly its length, which is what
/// `copy_into_slice` asks for. Taken on trust: the buffer then holds the
/// bytes of the string, and there are no more of them than a `u32` counts,
/// which is the type of `len`.
#[verifier::external_body]
fn read_string(text: &String) -> (bytes: Vec<u8>)
    ensures
        bytes@ == string_contents(*text),
        bytes@.len() <= u32::MAX,
{
    let mut buffer = vec![0u8; text.len() as usize];
    text.copy_into_slice(&mut buffer);
    buffer
}

/// `Address::to_string` of the SDK. Taken on trust: the host string that it
/// returns holds the strkey of the address.
#[verifier::external_body]
fn strkey_of(address: &Address) -> (strkey: String)
    ensures
        string_contents(strkey) == address_strkey(*address),
{
    address.to_string()
}

/// `Bytes::from_slice` of the SDK. Taken on trust: the host byte string that
/// it returns holds the bytes of the slice. Slices longer than a `u32`
/// counts are kept away from it, the length of a host byte string being a
/// `u32`.
#[verifier::external_body]
fn write_bytes(env: &Env, items: &[u8]) -> (bytes: Bytes)
    requires
        items@.len() <= u32::MAX,
    ensures
        bytes_contents(bytes) == items@,
{
    Bytes::from_slice(env, items)
}

/// The value of an optional host string.
pub open spec fn optional_string(text: Option<&String>) -> Option<Seq<u8>> {
    match text {
        Some(t) => Some(string_contents(*t)),
        None => None,
    }
}

/// The account that an optional address names.
pub open spec fn optional_address(address: Option<&Address>) -> Option<Seq<u8>> {
    match address {
        Some(a) => Some(address_strkey(*a)),
        None => None,
    }
}

/// The bytes of a host string.
pub fn string_bytes(text: &String) -> (bytes: Vec<u8>)
    ensures
        bytes@ == string_contents(*text),
        bytes@.len() <= u32::MAX,
{
    read_string(text)
}

/// A host string as a host byte string with the same bytes.
pub fn string_to_bytes(env: &Env, text: &String) -> (bytes: Bytes)
    ensures
        bytes_contents(bytes) == string_contents(*text),
{
    let raw = read_string(text);
    write_bytes(env, raw.as_slice())
}

/// The identity of an address in the task store: the bytes of its strkey.
pub fn account_id(address: &Address) -> (account: AccountId)
    ensures
        account@ == address_strkey(*address),
{
    let strkey = strkey_of(address);
    AccountId::new(read_string(&strkey))
}

/// A page as a host byte string, unless it is longer than a host byte
/// string can be.
pub fn page_bytes(env: &Env, page: &[u8]) -> (bytes: Option<Bytes>)
    ensures
        match bytes {
            Some(b) => bytes_contents(b) == page@,
            None => page@.len() > u32::MAX,
        },
{
    if page.len() > 0xffff_ffff {
        None
    } else {
        Some(write_bytes(env, page))
    }
}

/// Renders the page that a host path selects (`/` in its absence) for the
/// viewer with a host address, if there is one, as a host byte string.
/// There is no result where the page is longer than a host byte string can
/// be.
pub fn render(
    env: &Env,
    contract: &TodoContract,
    path: Option<&String>,
    viewer: Option<&Address>,
) -> (page: Option<Bytes>)
    ensures
        match page {
            Some(b) => bytes_contents(b) == contract@.render(
                optional_string(path),
                optional_address(viewer),
            ),
            None => contract@.render(optional_string(path), optional_address(viewer)).len()
                > u32::MAX,
        },
{
    let path_bytes: Option<Vec<u8>> = match path {
        Some(text) => Some(read_string(text)),
        None => None,
    };
    let viewer_id: Option<AccountId> = match viewer {
        Some(address) => Some(account_id(address)),
        None => None,
    };
    let out = match &path_bytes {
        Some(p) => match &viewer_id {
            Some(v) => contract.render(Some(p.as_slice()), Some(v)),
            None => contract.render(Some(p.as_slice()), None),
        },
        None => match &viewer_id {
            Some(v) => contract.render(None, Some(v)),
            None => contract.render(None, None),
        },
    };
    page_bytes(env, out.as_slice())
}

} // verus!
