//! Where a record lives: the storage key that the host derives from the registry's
//! program id, the owner's key and the digital id.

use crate::account::{byte_len, Pubkey};
use vstd::prelude::*;
use vstd::utf8::{encode_utf8, encode_utf8_decode_utf8};

verus! {

/// Most bytes that the host takes as one seed.
pub const MAX_SEED_LEN: usize = 32;

/// The bytes of the word `tourist`, the first seed of every record's key.
pub open spec fn seed_prefix() -> Seq<u8> {
    seq![116u8, 111u8, 117u8, 114u8, 105u8, 115u8, 116u8]
}

/// The seeds of a record's key: the prefix, the owner's key, the bytes of the digital id.
pub open spec fn record_seeds(owner: Seq<u8>, digital_id: Seq<char>) -> Seq<Seq<u8>> {
    seq![seed_prefix(), owner, encode_utf8(digital_id)]
}

/// The address and bump seed that the host's derivation of program addresses gives for
/// a list of seeds under a program id, or `None` where it gives none.
pub uninterp spec fn program_address(seeds: Seq<Seq<u8>>, program_id: Seq<u8>) -> Option<
    (Seq<u8>, u8),
>;

/// `Pubkey::try_find_program_address` on three seeds. The result is a function of the
/// seeds and the program id alone. It is `None` where a seed is longer than 32 bytes.
#[verifier::external_body]
fn find_program_address(first: &[u8], second: &[u8], third: &[u8], program_id: &[u8; 32]) -> (r:
    Option<([u8; 32], u8)>)
    ensures
        match r {
            Some((key, bump)) => program_address(seq![first@, second@, third@], program_id@)
                == Some((key@, bump)),
            None => program_address(seq![first@, second@, third@], program_id@) is None,
        },
        first@.len() > 32 || second@.len() > 32 || third@.len() > 32 ==> r is None,
{
    let id = anchor_lang::prelude::Pubkey::new_from_array(*program_id);
    match anchor_lang::prelude::Pubkey::try_find_program_address(&[first, second, third], &id) {
        Some((key, bump)) => Some((key.to_bytes(), bump)),
        None => None,
    }
}

/// The storage key of the record of `owner` with `digital_id`, and the bump seed that
/// goes with it. There is none for a digital id of more than 32 bytes.
pub fn derive_key(program_id: &Pubkey, owner: &Pubkey, digital_id: &str) -> (r: Option<
    (Pubkey, u8),
>)
    ensures
        match program_address(record_seeds(owner@, digital_id@), program_id@) {
            Some((key, bump)) => r matches Some((k, b)) && k@ == key && b == bump,
            None => r is None,
        },
        byte_len(digital_id@) > MAX_SEED_LEN ==> r is None,
{
    let prefix: [u8; 7] = [116u8, 111u8, 117u8, 114u8, 105u8, 115u8, 116u8];
    assert(prefix@ =~= seed_prefix());
    match find_program_address(
        prefix.as_slice(),
        owner.bytes.as_slice(),
        digital_id.as_bytes(),
        &program_id.bytes,
    ) {
        Some((bytes, bump)) => Some((Pubkey::new(bytes), bump)),
        None => None,
    }
}

/// Whether a derivation gave the address `address`.
pub fn address_matches(derived: &Option<(Pubkey, u8)>, address: &Pubkey) -> (ok: bool)
    ensures
        ok == (derived matches Some((key, _)) && key@ == address@),
{
    match derived {
        Some((key, _)) => key.same_as(address),
        None => false,
    }
}

/// Whether `address` is where the record of `owner` with `digital_id` lives.
pub fn is_record_address(
    program_id: &Pubkey,
    owner: &Pubkey,
    digital_id: &str,
    address: &Pubkey,
) -> (ok: bool)
    ensures
        ok == (program_address(record_seeds(owner@, digital_id@), program_id@) matches Some(
            (key, _),
        ) && key == address@),
{
    let derived = derive_key(program_id, owner, digital_id);
    address_matches(&derived, address)
}

/// Different records have different seeds, also when the seeds are written one after
/// the other: owner and digital id can be told from the bytes that the host derives
/// the key from.
pub proof fn lemma_seeds_tell_records_apart(
    owner_a: Seq<u8>,
    digital_id_a: Seq<char>,
    owner_b: Seq<u8>,
    digital_id_b: Seq<char>,
)
    requires
        owner_a.len() == 32,
        owner_b.len() == 32,
        seed_prefix() + owner_a + encode_utf8(digital_id_a) == seed_prefix() + owner_b
            + encode_utf8(digital_id_b),
    ensures
        owner_a == owner_b,
        digital_id_a == digital_id_b,
        record_seeds(owner_a, digital_id_a) == record_seeds(owner_b, digital_id_b),
{
    let a = seed_prefix() + owner_a + encode_utf8(digital_id_a);
    let b = seed_prefix() + owner_b + encode_utf8(digital_id_b);
    assert(owner_a =~= a.subrange(7, 39));
    assert(owner_b =~= b.subrange(7, 39));
    assert(encode_utf8(digital_id_a) =~= a.skip(39));
    assert(encode_utf8(digital_id_b) =~= b.skip(39));
    encode_utf8_decode_utf8(digital_id_a);
    encode_utf8_decode_utf8(digital_id_b);
}

} // verus!
