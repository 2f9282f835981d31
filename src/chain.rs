//! The ledger values that requests are made of.
use vstd::prelude::*;

verus! {

pub type AccountName = u64;

pub type ActionName = u64;

/// Seconds-based block time slot as the ledger counts it.
pub type BlockTimestamp = u32;

/// An account and one of its permissions.
#[derive(Clone, Copy, Debug, PartialEq, Eq, Structural)]
pub struct PermissionLevel {
    pub actor: AccountName,
    pub permission: u64,
}

/// A 256-bit digest: exactly 32 bytes.
#[derive(Clone, Copy, Debug, PartialEq, Eq)]
pub struct Checksum256 {
    pub hash: [u8; 32],
}

impl Checksum256 {
    pub fn as_bytes(&self) -> (r: Vec<u8>)
        ensures
            r@ == self.hash@,
    {
        let mut r: Vec<u8> = Vec::new();
        let mut i: usize = 0;
        while i < 32
            invariant
                i <= 32,
                r@ == self.hash@.subrange(0, i as int),
            decreases 32 - i,
        {
            r.push(self.hash[i]);
            i = i + 1;
        }
        assert(r@ =~= self.hash@);
        r
    }
}

#[derive(Clone, Debug, PartialEq, Eq)]
pub struct Action {
    pub account: AccountName,
    pub name: ActionName,
    pub authorization: Vec<PermissionLevel>,
    pub data: Vec<u8>,
}

#[derive(Clone, Debug, PartialEq, Eq)]
pub struct ActionReceipt {
    pub receiver: AccountName,
    pub act_digest: Checksum256,
    pub global_sequence: u64,
    pub recv_sequence: u64,
    /// Account to sequence number, keys strictly increasing.
    pub auth_sequence: Vec<(AccountName, u64)>,
    pub code_sequence: u32,
    pub abi_sequence: u32,
}

/// Snapshot of an incremental merkle tree.
#[derive(Clone, Debug, PartialEq, Eq)]
pub struct IncrementalMerkle {
    pub node_count: u64,
    pub active_nodes: Vec<Checksum256>,
}

#[derive(Clone, Debug, PartialEq, Eq)]
pub struct Extension {
    pub kind: u16,
    pub data: Vec<u8>,
}

/// A producer and the text of its block signing key, as decoded; the text
/// is not parsed into a key.
#[derive(Clone, Debug, PartialEq, Eq)]
pub struct ProducerKey {
    pub producer_name: AccountName,
    pub block_signing_key: String,
}

#[derive(Clone, Debug, PartialEq, Eq)]
pub struct ProducerSchedule {
    pub version: u32,
    pub producers: Vec<ProducerKey>,
}

#[derive(Clone, Debug, PartialEq, Eq)]
pub struct BlockHeader {
    pub timestamp: BlockTimestamp,
    pub producer: AccountName,
    pub confirmed: u16,
    pub previous: Checksum256,
    pub transaction_mroot: Checksum256,
    pub action_mroot: Checksum256,
    pub schedule_version: u32,
    pub new_producers: Option<ProducerSchedule>,
    pub header_extensions: Vec<Extension>,
}

/// A block header and the text of its producer's signature, as decoded;
/// the text is not parsed into a signature.
#[derive(Clone, Debug, PartialEq, Eq)]
pub struct SignedBlockHeader {
    pub block_header: BlockHeader,
    pub producer_signature: String,
}

} // verus!
