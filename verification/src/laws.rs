//! The laws the library states of itself, each proved over the views and
//! spec functions that the entry points' contracts use: round trips for the
//! getter/setter pairs, the documented defaults of a fresh record, how the
//! counter behaves under repeated increments and under multiplication, and
//! what migration preserves, discards and refuses.

use crate::codec::{
    le_bytes, le_value, lemma_le_bytes_len, lemma_le_round_trip, lemma_parse_encoded_string,
    lemma_pow256_values, pow256, spec_encode_string, spec_parse_string,
};
use crate::legacy::{
    counter_after_increments, scaled_counter, spec_decode_old, spec_encode_old,
    OldContractView,
};
use crate::state::{migrated, spec_decode_new, spec_encode_new, ContractView};
use vstd::arithmetic::div_mod::lemma_small_mod;
use vstd::prelude::*;
use vstd::utf8::encode_utf8;

verus! {

/// Setting the greeting and reading it back yields the value written, and
/// touches no other field.
pub proof fn lemma_greeting_round_trip(before: OldContractView, v: Seq<char>)
    ensures
        (OldContractView { greeting: v, ..before }).greeting == v,
        (OldContractView { greeting: v, ..before }).counter == before.counter,
        (OldContractView { greeting: v, ..before }).encryption_pub_key
            == before.encryption_pub_key,
{
}

/// Setting the legacy record's encryption public key and reading it back
/// yields the value written, and touches no other field.
pub proof fn lemma_legacy_key_round_trip(before: OldContractView, v: Seq<char>)
    ensures
        (OldContractView { encryption_pub_key: v, ..before }).encryption_pub_key == v,
        (OldContractView { encryption_pub_key: v, ..before }).greeting == before.greeting,
        (OldContractView { encryption_pub_key: v, ..before }).counter == before.counter,
{
}

/// Setting the content identifier and reading it back yields the value
/// written, and touches no other field.
pub proof fn lemma_cid_round_trip(before: ContractView, v: Seq<char>)
    ensures
        (ContractView { ipfs_cid: v, ..before }).ipfs_cid == v,
        (ContractView { ipfs_cid: v, ..before }).encryption_pub_key == before.encryption_pub_key,
{
}

/// Setting the current record's encryption public key and reading it back
/// yields the value written, and touches no other field.
pub proof fn lemma_key_round_trip(before: ContractView, v: Seq<char>)
    ensures
        (ContractView { encryption_pub_key: v, ..before }).encryption_pub_key == v,
        (ContractView { encryption_pub_key: v, ..before }).ipfs_cid == before.ipfs_cid,
{
}

/// A freshly created record, before any call mutates it, holds the documented
/// defaults: every text field, the encryption public key among them, is the
/// empty string, and the counter is zero.
pub proof fn lemma_fresh_record_defaults()
    ensures
        ContractView::initial().ipfs_cid == Seq::<char>::empty(),
        ContractView::initial().encryption_pub_key == Seq::<char>::empty(),
        OldContractView::initial().greeting == Seq::<char>::empty(),
        OldContractView::initial().encryption_pub_key == Seq::<char>::empty(),
        OldContractView::initial().counter == 0,
{
}

/// `n` increments from a zero counter yield exactly `n`, for every `n` the
/// counter's width can hold.
pub proof fn lemma_increments_count_up(n: nat)
    requires
        n <= u64::MAX,
    ensures
        counter_after_increments(n) == n,
    decreases n,
{
    if n > 0 {
        lemma_increments_count_up((n - 1) as nat);
    }
}

/// Multiplying the counter by `k` yields exactly the product whenever it fits
/// the counter's width.
pub proof fn lemma_multiply_exact(c: u64, k: u64)
    requires
        c as nat * k as nat <= u64::MAX,
    ensures
        scaled_counter(c, k) == c as nat * k as nat,
{
    lemma_small_mod(c as nat * k as nat, 0x1_0000_0000_0000_0000);
}

/// Decoding what the legacy layout encoded yields the record unchanged, for
/// every record whose fields fit the layout's 4-byte length prefixes.
pub proof fn lemma_legacy_round_trip(v: OldContractView)
    requires
        encode_utf8(v.greeting).len() < pow256(4),
        encode_utf8(v.encryption_pub_key).len() < pow256(4),
    ensures
        spec_decode_old(spec_encode_old(v)) == Some(v),
{
    let b = spec_encode_old(v);
    let glen = encode_utf8(v.greeting).len() as int;
    let klen = encode_utf8(v.encryption_pub_key).len() as int;
    lemma_le_bytes_len(encode_utf8(v.greeting).len(), 4);
    lemma_le_bytes_len(encode_utf8(v.encryption_pub_key).len(), 4);
    lemma_le_bytes_len(v.counter as nat, 8);
    assert(b =~= Seq::<u8>::empty() + spec_encode_string(v.greeting) + (le_bytes(
        v.counter as nat,
        8,
    ) + spec_encode_string(v.encryption_pub_key)));
    lemma_parse_encoded_string(
        Seq::<u8>::empty(),
        v.greeting,
        le_bytes(v.counter as nat, 8) + spec_encode_string(v.encryption_pub_key),
    );
    let i = 4 + glen;
    assert(spec_parse_string(b, 0) == Some((v.greeting, i)));
    assert(b.subrange(i, i + 8) =~= le_bytes(v.counter as nat, 8));
    lemma_pow256_values();
    lemma_le_round_trip(v.counter as nat, 8);
    assert(le_value(b.subrange(i, i + 8)) == v.counter as nat);
    let prefix = spec_encode_string(v.greeting) + le_bytes(v.counter as nat, 8);
    assert(b =~= prefix + spec_encode_string(v.encryption_pub_key) + Seq::<u8>::empty());
    lemma_parse_encoded_string(prefix, v.encryption_pub_key, Seq::<u8>::empty());
    assert(spec_parse_string(b, i + 8) == Some((v.encryption_pub_key, i + 8 + 4 + klen)));
    assert(i + 8 + 4 + klen == b.len());
    assert(spec_decode_old(b).unwrap() =~= v);
}

/// Decoding what the current layout encoded yields the record unchanged, for
/// every record whose fields fit the layout's 4-byte length prefixes.
pub proof fn lemma_current_round_trip(v: ContractView)
    requires
        encode_utf8(v.ipfs_cid).len() < pow256(4),
        encode_utf8(v.encryption_pub_key).len() < pow256(4),
    ensures
        spec_decode_new(spec_encode_new(v)) == Some(v),
{
    let b = spec_encode_new(v);
    let clen = encode_utf8(v.ipfs_cid).len() as int;
    let klen = encode_utf8(v.encryption_pub_key).len() as int;
    lemma_le_bytes_len(encode_utf8(v.ipfs_cid).len(), 4);
    lemma_le_bytes_len(encode_utf8(v.encryption_pub_key).len(), 4);
    assert(b =~= Seq::<u8>::empty() + spec_encode_string(v.ipfs_cid) + spec_encode_string(
        v.encryption_pub_key,
    ));
    lemma_parse_encoded_string(
        Seq::<u8>::empty(),
        v.ipfs_cid,
        spec_encode_string(v.encryption_pub_key),
    );
    let i = 4 + clen;
    assert(spec_parse_string(b, 0) == Some((v.ipfs_cid, i)));
    assert(b =~= spec_encode_string(v.ipfs_cid) + spec_encode_string(v.encryption_pub_key)
        + Seq::<u8>::empty());
    lemma_parse_encoded_string(
        spec_encode_string(v.ipfs_cid),
        v.encryption_pub_key,
        Seq::<u8>::empty(),
    );
    assert(spec_parse_string(b, i) == Some((v.encryption_pub_key, i + 4 + klen)));
    assert(spec_decode_new(b).unwrap() =~= v);
}

/// Migrating a persisted legacy record keeps the encryption public key
/// verbatim, initializes the content identifier to the empty string, and
/// discards the greeting and the counter, for every legacy record whose
/// fields fit the layout.
pub proof fn lemma_migration_preserves_key(v: OldContractView)
    requires
        encode_utf8(v.greeting).len() < pow256(4),
        encode_utf8(v.encryption_pub_key).len() < pow256(4),
    ensures
        spec_decode_old(spec_encode_old(v)) == Some(v),
        migrated(v).encryption_pub_key == v.encryption_pub_key,
        migrated(v).ipfs_cid == Seq::<char>::empty(),
{
    lemma_legacy_round_trip(v);
}

/// Bytes persisted under the current schema do not decode under the legacy
/// layout, so running the migration a second time fails. Read as a legacy
/// record, the current bytes put the key's length word and first four bytes
/// where the counter lives and the key's bytes at offsets four to eight where
/// the next length word lives; decoding fails unless the key is contrived so
/// that those four bytes spell, little-endian, exactly its own length less
/// eight. The law is stated for every other key — every key shorter than
/// eight UTF-8 bytes, and longer ones with any ordinary content.
pub proof fn lemma_second_migration_fails(v: ContractView)
    requires
        encode_utf8(v.ipfs_cid).len() < pow256(4),
        encode_utf8(v.encryption_pub_key).len() < pow256(4),
        encode_utf8(v.encryption_pub_key).len() >= 8 ==> le_value(
            encode_utf8(v.encryption_pub_key).subrange(4, 8),
        ) != encode_utf8(v.encryption_pub_key).len() - 8,
    ensures
        spec_decode_old(spec_encode_new(v)) is None,
{
    let b = spec_encode_new(v);
    let kb = encode_utf8(v.encryption_pub_key);
    let clen = encode_utf8(v.ipfs_cid).len() as int;
    let klen = kb.len() as int;
    lemma_le_bytes_len(encode_utf8(v.ipfs_cid).len(), 4);
    lemma_le_bytes_len(kb.len(), 4);
    assert(b =~= Seq::<u8>::empty() + spec_encode_string(v.ipfs_cid) + spec_encode_string(
        v.encryption_pub_key,
    ));
    lemma_parse_encoded_string(
        Seq::<u8>::empty(),
        v.ipfs_cid,
        spec_encode_string(v.encryption_pub_key),
    );
    let i = 4 + clen;
    assert(spec_parse_string(b, 0) == Some((v.ipfs_cid, i)));
    assert(b.len() == i + 4 + klen);
    if klen < 4 {
        assert(i + 8 > b.len());
    } else if klen < 8 {
        assert(i + 8 + 4 > b.len());
        assert(spec_parse_string(b, i + 8) is None);
    } else {
        // The length word the legacy layout reads next is the key's bytes at
        // offsets four to eight, which by assumption do not spell the length
        // that would make the record parse to its exact end.
        assert(b.subrange(i + 8, i + 12) =~= kb.subrange(4, 8));
        let n = le_value(kb.subrange(4, 8)) as int;
        if i + 12 + n > b.len() {
            assert(spec_parse_string(b, i + 8) is None);
        } else {
            assert(n != klen - 8);
            assert(match spec_parse_string(b, i + 8) {
                None => true,
                Some((_, j)) => j == i + 12 + n && j != b.len(),
            });
        }
    }
}

} // verus!
