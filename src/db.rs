//! Proof bundles: decoded values put together into one request, with the
//! structural checks that hold across their fields.
use vstd::prelude::*;
use crate::chain::{
    Action, ActionReceipt, Checksum256, IncrementalMerkle, ProducerSchedule, SignedBlockHeader,
};
use crate::Error;

verus! {

/// Error for header and id-list counts that disagree, if they do.
pub open spec fn mismatch_error(headers: nat, id_lists: nat) -> Option<Error> {
    if headers == id_lists {
        None
    } else {
        Some(Error::StructuralMismatch(headers as usize, id_lists as usize))
    }
}

/// A request to replace the producer schedule.
#[derive(Clone, Debug, PartialEq, Eq)]
pub struct ChangeScheduleArgs {
    pub legacy_schedule_hash: Checksum256,
    pub schedule: ProducerSchedule,
    pub merkle: IncrementalMerkle,
    pub block_headers: Vec<SignedBlockHeader>,
    pub block_ids_list: Vec<Vec<Checksum256>>,
}

impl ChangeScheduleArgs {
    /// One id list stands beside each block header.
    pub open spec fn wf(&self) -> bool {
        self.block_headers@.len() == self.block_ids_list@.len()
    }

    /// Puts a schedule change together; refuses header and id-list counts
    /// that disagree.
    pub fn new(
        legacy_schedule_hash: Checksum256,
        schedule: ProducerSchedule,
        merkle: IncrementalMerkle,
        block_headers: Vec<SignedBlockHeader>,
        block_ids_list: Vec<Vec<Checksum256>>,
    ) -> (r: Result<ChangeScheduleArgs, Error>)
        ensures
            match r {
                Ok(a) => {
                    &&& mismatch_error(block_headers@.len(), block_ids_list@.len()) is None
                    &&& a.wf()
                    &&& a == (ChangeScheduleArgs {
                        legacy_schedule_hash,
                        schedule,
                        merkle,
                        block_headers,
                        block_ids_list,
                    })
                },
                Err(e) => mismatch_error(block_headers@.len(), block_ids_list@.len()) == Some(e),
            },
    {
        if block_headers.len() != block_ids_list.len() {
            return Err(Error::StructuralMismatch(block_headers.len(), block_ids_list.len()));
        }
        Ok(
            ChangeScheduleArgs {
                legacy_schedule_hash,
                schedule,
                merkle,
                block_headers,
                block_ids_list,
            },
        )
    }
}

/// A request to prove that an action took place on the foreign chain.
#[derive(Clone, Debug, PartialEq, Eq)]
pub struct ProveActionArgs {
    pub action: Action,
    pub action_receipt: ActionReceipt,
    pub action_merkle_paths: Vec<Checksum256>,
    pub merkle: IncrementalMerkle,
    pub block_headers: Vec<SignedBlockHeader>,
    pub block_ids_list: Vec<Vec<Checksum256>>,
    pub trx_id: Checksum256,
}

impl ProveActionArgs {
    /// One id list stands beside each block header.
    pub open spec fn wf(&self) -> bool {
        self.block_headers@.len() == self.block_ids_list@.len()
    }

    /// Puts an action proof together; refuses header and id-list counts that
    /// disagree.
    pub fn new(
        action: Action,
        action_receipt: ActionReceipt,
        action_merkle_paths: Vec<Checksum256>,
        merkle: IncrementalMerkle,
        block_headers: Vec<SignedBlockHeader>,
        block_ids_list: Vec<Vec<Checksum256>>,
        trx_id: Checksum256,
    ) -> (r: Result<ProveActionArgs, Error>)
        ensures
            match r {
                Ok(a) => {
                    &&& mismatch_error(block_headers@.len(), block_ids_list@.len()) is None
                    &&& a.wf()
                    &&& a == (ProveActionArgs {
                        action,
                        action_receipt,
                        action_merkle_paths,
                        merkle,
                        block_headers,
                        block_ids_list,
                        trx_id,
                    })
                },
                Err(e) => mismatch_error(block_headers@.len(), block_ids_list@.len()) == Some(e),
            },
    {
        if block_headers.len() != block_ids_list.len() {
            return Err(Error::StructuralMismatch(block_headers.len(), block_ids_list.len()));
        }
        Ok(
            ProveActionArgs {
                action,
                action_receipt,
                action_merkle_paths,
                merkle,
                block_headers,
                block_ids_list,
                trx_id,
            },
        )
    }
}

} // verus!
