//! Event-driven client/server messaging core: a channel registry, explicit
//! client and server connection state machines, and a per-tick message bridge
//! between typed event queues and a byte-oriented transport.

pub mod channel;
pub mod client;
pub mod codec;
pub mod errors;
pub mod registry;
pub mod server;
pub mod transport;

use vstd::prelude::*;
use vstd::string::StringSliceAdditionalSpecFns;

verus! {

/// Length in bytes of a private key for authenticated connections.
pub const KEY_BYTES: usize = 32;

/// Converts a string to a key that can be used for authenticated connections.
/// The key is `KEY_BYTES` long; longer input is truncated and shorter input is
/// zero-padded.
pub fn string_to_key(string: &str) -> (key: [u8; KEY_BYTES])
    ensures
        forall|i: int|
            0 <= i < KEY_BYTES ==> key@[i] == (if i < string.spec_bytes().len() {
                string.spec_bytes()[i]
            } else {
                0u8
            }),
{
    let bytes = string.as_bytes();
    let mut key: [u8; KEY_BYTES] = [0u8; KEY_BYTES];
    let mut i: usize = 0;
    while i < KEY_BYTES && i < bytes.len()
        invariant
            0 <= i <= KEY_BYTES,
            bytes@ == string.spec_bytes(),
            forall|j: int|
                0 <= j < KEY_BYTES ==> key@[j] == (if j < i && j < bytes@.len() {
                    bytes@[j]
                } else {
                    0u8
                }),
        decreases KEY_BYTES - i,
    {
        key[i] = bytes[i];
        i = i + 1;
    }
    key
}

} // verus!
