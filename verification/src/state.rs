//! The current schema: the record the deployed code reads at the start of
//! every call and writes back at the end, with its getter/setter entry points
//! and the one-shot migration from the legacy layout.

use crate::codec::{
    le_value, lemma_pow256_values, pow256, read_string, spec_encode_string, spec_parse_string,
    write_string, DecodeError,
};
use crate::legacy::{spec_decode_old, OldContract, OldContractView};
use vstd::prelude::*;
use vstd::utf8::encode_utf8;

verus! {

/// The mathematical value of the current record: its fields as plain
/// character sequences.
#[verifier::ext_equal]
pub ghost struct ContractView {
    pub ipfs_cid: Seq<char>,
    pub encryption_pub_key: Seq<char>,
}

impl ContractView {
    /// The record a fresh deployment starts from: every text field empty.
    pub open spec fn initial() -> ContractView {
        ContractView { ipfs_cid: Seq::empty(), encryption_pub_key: Seq::empty() }
    }
}

/// What migration makes of a legacy record: the encryption public key is
/// carried over verbatim, the content identifier, new in this schema, starts
/// at its default; the greeting and the counter are discarded.
pub open spec fn migrated(v: OldContractView) -> ContractView {
    ContractView { ipfs_cid: Seq::empty(), encryption_pub_key: v.encryption_pub_key }
}

/// The single persisted record of the currently deployed code.
pub struct Contract {
    ipfs_cid: String,
    encryption_pub_key: String,
}

impl View for Contract {
    type V = ContractView;

    closed spec fn view(&self) -> ContractView {
        ContractView { ipfs_cid: self.ipfs_cid@, encryption_pub_key: self.encryption_pub_key@ }
    }
}

impl Default for Contract {
    /// The record created when no persisted bytes exist yet.
    fn default() -> (r: Self)
        ensures
            r@ == ContractView::initial(),
    {
        let r = Contract { ipfs_cid: String::new(), encryption_pub_key: String::new() };
        proof {
            assert(r@ =~= ContractView::initial());
        }
        r
    }
}

impl Contract {
    pub fn get_ipfs_cid(&self) -> (r: &str)
        ensures
            r@ == self@.ipfs_cid,
    {
        self.ipfs_cid.as_str()
    }

    pub fn set_ipfs_cid(&mut self, ipfs_cid: String)
        ensures
            final(self)@ == (ContractView { ipfs_cid: ipfs_cid@, ..old(self)@ }),
    {
        self.ipfs_cid = ipfs_cid;
    }

    pub fn get_encryption_pub_key(&self) -> (r: String)
        ensures
            r@ == self@.encryption_pub_key,
    {
        self.encryption_pub_key.clone()
    }

    pub fn set_encryption_pub_key(&mut self, key: String)
        ensures
            final(self)@ == (ContractView { encryption_pub_key: key@, ..old(self)@ }),
    {
        self.encryption_pub_key = key;
    }
}

/// The current record's persisted bytes: content identifier, then encryption
/// public key.
pub open spec fn spec_encode_new(v: ContractView) -> Seq<u8> {
    spec_encode_string(v.ipfs_cid) + spec_encode_string(v.encryption_pub_key)
}

/// Read bytes strictly as a current record: both fields in order, and nothing
/// may remain.
pub open spec fn spec_decode_new(b: Seq<u8>) -> Option<ContractView> {
    match spec_parse_string(b, 0) {
        None => None,
        Some((cid, i)) => match spec_parse_string(b, i) {
            None => None,
            Some((k, j)) => if j == b.len() {
                Some(ContractView { ipfs_cid: cid, encryption_pub_key: k })
            } else {
                None
            },
        },
    }
}

impl Contract {
    /// Serialize this record under the current layout. Fails, returning
    /// `None`, exactly when a field's UTF-8 length does not fit the layout's
    /// 4-byte length prefix.
    pub fn encode(&self) -> (r: Option<Vec<u8>>)
        ensures
            r matches Some(b) ==> b@ == spec_encode_new(self@),
            r is Some <==> encode_utf8(self@.ipfs_cid).len() < pow256(4) && encode_utf8(
                self@.encryption_pub_key,
            ).len() < pow256(4),
    {
        let mut out: Vec<u8> = Vec::new();
        if !write_string(&mut out, &self.ipfs_cid) {
            return None;
        }
        if !write_string(&mut out, &self.encryption_pub_key) {
            return None;
        }
        proof {
            assert(out@ =~= spec_encode_new(self@));
        }
        Some(out)
    }

    /// Deserialize a current record from its persisted bytes; the bytes must
    /// match the current layout exactly.
    pub fn decode(bytes: &Vec<u8>) -> (r: Result<Contract, DecodeError>)
        ensures
            match spec_decode_new(bytes@) {
                Some(v) => r matches Ok(c) && c@ == v,
                None => r is Err,
            },
    {
        let (ipfs_cid, i) = match read_string(bytes, 0) {
            Err(e) => {
                return Err(e);
            },
            Ok(p) => p,
        };
        let (key, j) = match read_string(bytes, i) {
            Err(e) => {
                return Err(e);
            },
            Ok(p) => p,
        };
        if j != bytes.len() {
            return Err(DecodeError);
        }
        let r = Contract { ipfs_cid, encryption_pub_key: key };
        proof {
            assert(r@ =~= spec_decode_new(bytes@).unwrap());
        }
        Ok(r)
    }

    /// The one-shot schema upgrade. Reads the persisted bytes strictly under
    /// the legacy layout; on a match it returns the record re-shaped for the
    /// current schema (encryption public key kept, content identifier
    /// defaulted, greeting and counter discarded), and on a mismatch it fails
    /// with `DecodeError`, so that the caller leaves the stored bytes
    /// untouched. That only the deployment-privileged account may invoke it
    /// is enforced by the host before the call reaches the contract.
    pub fn migrate(state: &Vec<u8>) -> (r: Result<Contract, DecodeError>)
        ensures
            match spec_decode_old(state@) {
                Some(v) => r matches Ok(c) && c@ == migrated(v),
                None => r is Err,
            },
    {
        let old_state = match OldContract::decode(state) {
            Err(e) => {
                return Err(e);
            },
            Ok(c) => c,
        };
        let r = Contract {
            ipfs_cid: String::new(),
            encryption_pub_key: old_state.get_encryption_pub_key(),
        };
        proof {
            assert(r@ =~= migrated(spec_decode_old(state@).unwrap()));
        }
        Ok(r)
    }
}

} // verus!
