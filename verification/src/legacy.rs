//! The legacy schema: the record shape the contract persisted before the
//! current code was deployed. It carries a greeting, a counter and an
//! encryption public key, each with its entry points, and is the layout the
//! migration reads.

use crate::codec::{
    le_bytes, le_value, lemma_le_value_bound, lemma_pow256_values, pow256, push_le_bytes,
    read_le_bytes, read_string, spec_encode_string, spec_parse_string, write_string, DecodeError,
};
use vstd::prelude::*;
use vstd::utf8::encode_utf8;

verus! {

/// The mathematical value of a legacy record: its fields as plain sequences
/// and an integer.
#[verifier::ext_equal]
pub ghost struct OldContractView {
    pub greeting: Seq<char>,
    pub counter: u64,
    pub encryption_pub_key: Seq<char>,
}

impl OldContractView {
    /// The record a fresh deployment starts from: text fields empty, counter
    /// zero.
    pub open spec fn initial() -> OldContractView {
        OldContractView {
            greeting: Seq::empty(),
            counter: 0,
            encryption_pub_key: Seq::empty(),
        }
    }
}

/// The counter after one increment: it wraps at the top of the 8-byte range,
/// the layout's integer width.
pub open spec fn next_counter(c: u64) -> u64 {
    if c == u64::MAX {
        0
    } else {
        (c + 1) as u64
    }
}

/// The counter after multiplying by `k`, wrapping at the top of the 8-byte
/// range.
pub open spec fn scaled_counter(c: u64, k: u64) -> u64 {
    ((c as nat * k as nat) % 0x1_0000_0000_0000_0000) as u64
}

/// The counter after `n` increments from zero.
pub open spec fn counter_after_increments(n: nat) -> u64
    decreases n,
{
    if n == 0 {
        0
    } else {
        next_counter(counter_after_increments((n - 1) as nat))
    }
}

/// The record persisted by the previously deployed code.
pub struct OldContract {
    greeting: String,
    counter: u64,
    encryption_pub_key: String,
}

impl View for OldContract {
    type V = OldContractView;

    closed spec fn view(&self) -> OldContractView {
        OldContractView {
            greeting: self.greeting@,
            counter: self.counter,
            encryption_pub_key: self.encryption_pub_key@,
        }
    }
}

impl Default for OldContract {
    /// The record created when no persisted bytes exist yet.
    fn default() -> (r: Self)
        ensures
            r@ == OldContractView::initial(),
    {
        let r = OldContract {
            greeting: String::new(),
            counter: 0,
            encryption_pub_key: String::new(),
        };
        proof {
            assert(r@ =~= OldContractView::initial());
        }
        r
    }
}

impl OldContract {
    pub fn get_greeting(&self) -> (r: String)
        ensures
            r@ == self@.greeting,
    {
        self.greeting.clone()
    }

    pub fn set_greeting(&mut self, greeting: String)
        ensures
            final(self)@ == (OldContractView { greeting: greeting@, ..old(self)@ }),
    {
        self.greeting = greeting;
    }

    pub fn get_counter(&self) -> (r: u64)
        ensures
            r == self@.counter,
    {
        self.counter
    }

    /// Add one to the counter, wrapping at the top of its range.
    pub fn increment_counter(&mut self)
        ensures
            final(self)@ == (OldContractView {
                counter: next_counter(old(self)@.counter),
                ..old(self)@
            }),
    {
        if self.counter == u64::MAX {
            self.counter = 0;
        } else {
            self.counter = self.counter + 1;
        }
    }

    /// Multiply the counter by `val`, wrapping at the top of its range; a
    /// factor of zero sets it to zero.
    pub fn multiply_counter(&mut self, val: u64)
        ensures
            final(self)@ == (OldContractView {
                counter: scaled_counter(old(self)@.counter, val),
                ..old(self)@
            }),
    {
        self.counter = self.counter.wrapping_mul(val);
    }

    pub fn get_encryption_pub_key(&self) -> (r: String)
        ensures
            r@ == self@.encryption_pub_key,
    {
        self.encryption_pub_key.clone()
    }

    pub fn set_encryption_pub_key(&mut self, key: String)
        ensures
            final(self)@ == (OldContractView { encryption_pub_key: key@, ..old(self)@ }),
    {
        self.encryption_pub_key = key;
    }
}

/// The legacy record's persisted bytes: greeting, counter (8 bytes
/// little-endian), encryption public key, in that order.
pub open spec fn spec_encode_old(v: OldContractView) -> Seq<u8> {
    spec_encode_string(v.greeting) + le_bytes(v.counter as nat, 8) + spec_encode_string(
        v.encryption_pub_key,
    )
}

/// Read bytes strictly as a legacy record: all three fields in order, and
/// nothing may remain.
pub open spec fn spec_decode_old(b: Seq<u8>) -> Option<OldContractView> {
    match spec_parse_string(b, 0) {
        None => None,
        Some((g, i)) => if i + 8 > b.len() {
            None
        } else {
            let c = le_value(b.subrange(i, i + 8));
            match spec_parse_string(b, i + 8) {
                None => None,
                Some((k, j)) => if j == b.len() {
                    Some(OldContractView { greeting: g, counter: c as u64, encryption_pub_key: k })
                } else {
                    None
                },
            }
        },
    }
}

impl OldContract {
    /// Serialize this record under the legacy layout. Fails, returning
    /// `None`, exactly when a field's UTF-8 length does not fit the layout's
    /// 4-byte length prefix.
    pub fn encode(&self) -> (r: Option<Vec<u8>>)
        ensures
            r matches Some(b) ==> b@ == spec_encode_old(self@),
            r is Some <==> encode_utf8(self@.greeting).len() < pow256(4) && encode_utf8(
                self@.encryption_pub_key,
            ).len() < pow256(4),
    {
        let mut out: Vec<u8> = Vec::new();
        if !write_string(&mut out, &self.greeting) {
            return None;
        }
        proof {
            lemma_pow256_values();
        }
        push_le_bytes(&mut out, self.counter, 8);
        if !write_string(&mut out, &self.encryption_pub_key) {
            return None;
        }
        proof {
            assert(out@ =~= spec_encode_old(self@));
        }
        Some(out)
    }

    /// Deserialize a legacy record from its persisted bytes; the bytes must
    /// match the legacy layout exactly.
    pub fn decode(bytes: &Vec<u8>) -> (r: Result<OldContract, DecodeError>)
        ensures
            match spec_decode_old(bytes@) {
                Some(v) => r matches Ok(c) && c@ == v,
                None => r is Err,
            },
    {
        let (greeting, i) = match read_string(bytes, 0) {
            Err(e) => {
                return Err(e);
            },
            Ok(p) => p,
        };
        let blen: usize = bytes.len();
        if blen - i < 8 {
            return Err(DecodeError);
        }
        let counter: u64 = read_le_bytes(bytes, i, 8);
        proof {
            lemma_le_value_bound(bytes@.subrange(i as int, i + 8));
            lemma_pow256_values();
        }
        let (key, j) = match read_string(bytes, i + 8) {
            Err(e) => {
                return Err(e);
            },
            Ok(p) => p,
        };
        if j != blen {
            return Err(DecodeError);
        }
        let r = OldContract { greeting, counter, encryption_pub_key: key };
        proof {
            assert(r@ =~= spec_decode_old(bytes@).unwrap());
        }
        Ok(r)
    }
}

} // verus!
