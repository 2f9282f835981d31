//! Boundary layer of a cross-chain relay: decodes proof material handed over
//! a C call boundary into validated values, assembles proof bundles, and
//! coordinates the nonces and the single retry of their submission.
use vstd::prelude::*;
use vstd::string::*;

pub mod chain;
pub mod ffi_types;
pub mod db;
pub mod rpc_calls;

use chain::Checksum256;
use db::{ChangeScheduleArgs, ProveActionArgs, mismatch_error};
use ffi_types::{
    ActionFFI, ActionReceiptFFI, Checksum256ListFFI, DecodeForeign, IncrementalMerkleFFI,
    ProducerScheduleFFI, SignedBlockHeaderFFI, char_to_string, decode_list, list_decodes_to,
    list_error, string_error,
};
use vstd::utf8::decode_utf8;

verus! {

/// Where a submission to the remote ledger failed.
#[derive(Clone, Copy, Debug, PartialEq, Eq, Structural)]
pub enum LedgerErrorKind {
    /// The node could not be reached or the client could not be built.
    Connection,
    /// The transaction's sequence number or priority was too low for the pool.
    SequenceTooLow,
    /// Any other rejection.
    Rejected,
}

/// The argument or field that a null pointer was found in.
#[derive(Clone, Copy, Debug, PartialEq, Eq, Structural)]
pub enum Field {
    NodeUrl,
    Signer,
    Action,
    Authorization,
    ActionData,
    ActionReceipt,
    AuthSequence,
    MerkleState,
    ActiveNodes,
    ActionMerklePaths,
    BlockHeaders,
    BlockHeader,
    ProducerSignature,
    BlockIdLists,
    Checksum,
    ChecksumList,
    ExtensionData,
    Extensions,
    Producers,
    SigningKey,
    Schedule,
}

/// Every way a request can fail.
#[derive(Clone, Copy, Debug, PartialEq, Eq, Structural)]
pub enum Error {
    /// A required pointer was null; names the field.
    NullPtr(Field),
    /// A foreign string was not valid UTF-8.
    CStrConvertError,
    /// A buffer of fixed size had another declared length: (expected, actual).
    WrongLength(usize, usize),
    /// A producer's key text is no public key. This library carries key text
    /// as decoded and links no parser for the key format, so it never
    /// produces this error itself.
    PublicKeyError,
    /// A producer's signature text is no signature; as with keys, the
    /// library carries the text and never produces this error itself.
    SignatureError,
    /// Block headers and block id lists disagree in number: (headers, id lists).
    StructuralMismatch(usize, usize),
    /// The signer seed does not derive a key pair.
    WrongSudoSeed,
    /// The ledger refused or could not take the submission.
    SubxtError(LedgerErrorKind),
}

impl Field {
    pub open spec fn spec_name(self) -> Seq<char> {
        match self {
            Field::NodeUrl => "node url"@,
            Field::Signer => "signer"@,
            Field::Action => "action"@,
            Field::Authorization => "action authorization"@,
            Field::ActionData => "action data"@,
            Field::ActionReceipt => "action receipt"@,
            Field::AuthSequence => "auth sequence"@,
            Field::MerkleState => "incremental merkle"@,
            Field::ActiveNodes => "active nodes"@,
            Field::ActionMerklePaths => "action merkle paths"@,
            Field::BlockHeaders => "block headers"@,
            Field::BlockHeader => "block header"@,
            Field::ProducerSignature => "producer signature"@,
            Field::BlockIdLists => "block id lists"@,
            Field::Checksum => "checksum"@,
            Field::ChecksumList => "checksum list"@,
            Field::ExtensionData => "extension data"@,
            Field::Extensions => "header extensions"@,
            Field::Producers => "producers"@,
            Field::SigningKey => "block signing key"@,
            Field::Schedule => "producer schedule"@,
        }
    }

    pub fn name(&self) -> (r: &'static str)
        ensures
            r@ == self.spec_name(),
    {
        match self {
            Field::NodeUrl => "node url",
            Field::Signer => "signer",
            Field::Action => "action",
            Field::Authorization => "action authorization",
            Field::ActionData => "action data",
            Field::ActionReceipt => "action receipt",
            Field::AuthSequence => "auth sequence",
            Field::MerkleState => "incremental merkle",
            Field::ActiveNodes => "active nodes",
            Field::ActionMerklePaths => "action merkle paths",
            Field::BlockHeaders => "block headers",
            Field::BlockHeader => "block header",
            Field::ProducerSignature => "producer signature",
            Field::BlockIdLists => "block id lists",
            Field::Checksum => "checksum",
            Field::ChecksumList => "checksum list",
            Field::ExtensionData => "extension data",
            Field::Extensions => "header extensions",
            Field::Producers => "producers",
            Field::SigningKey => "block signing key",
            Field::Schedule => "producer schedule",
        }
    }
}

/// Text of one decimal digit.
pub open spec fn digit_text(d: nat) -> Seq<char> {
    seq![('0' as u8 + d) as char]
}

/// Decimal text of a number, without leading zeros.
pub open spec fn decimal_text(n: nat) -> Seq<char>
    decreases n,
{
    if n < 10 {
        digit_text(n)
    } else {
        decimal_text(n / 10) + digit_text(n % 10)
    }
}

fn digit_str(d: usize) -> (r: &'static str)
    requires
        d < 10,
    ensures
        r@ == digit_text(d as nat),
{
    proof {
        reveal_strlit("0");
        reveal_strlit("1");
        reveal_strlit("2");
        reveal_strlit("3");
        reveal_strlit("4");
        reveal_strlit("5");
        reveal_strlit("6");
        reveal_strlit("7");
        reveal_strlit("8");
        reveal_strlit("9");
    }
    let r = if d == 0 {
        "0"
    } else if d == 1 {
        "1"
    } else if d == 2 {
        "2"
    } else if d == 3 {
        "3"
    } else if d == 4 {
        "4"
    } else if d == 5 {
        "5"
    } else if d == 6 {
        "6"
    } else if d == 7 {
        "7"
    } else if d == 8 {
        "8"
    } else {
        "9"
    };
    assert(r@ =~= digit_text(d as nat));
    r
}

/// The decimal text of `n`.
pub fn decimal(n: usize) -> (r: String)
    ensures
        r@ == decimal_text(n as nat),
    decreases n,
{
    if n < 10 {
        String::from_str(digit_str(n))
    } else {
        decimal(n / 10).concat(digit_str(n % 10))
    }
}

impl Error {
    /// The fixed text of each kind of error. The full message adds the field
    /// that was null, or the counts that were found.
    pub open spec fn spec_description(self) -> Seq<char> {
        match self {
            Error::NullPtr(_) => " is null pointer."@,
            Error::CStrConvertError => "Failed to convert c string to rust string."@,
            Error::WrongLength(_, _) => "Buffer has a wrong length."@,
            Error::PublicKeyError => "Failed to convert string to PublicKey."@,
            Error::SignatureError => "Failed to convert string to Signature."@,
            Error::StructuralMismatch(_, _) => "Block headers and block id lists differ in number."@,
            Error::WrongSudoSeed => "Wrong sudo seed, failed to sign transaction."@,
            Error::SubxtError(LedgerErrorKind::Connection) => "Error from subxt crate: failed to create subxt client"@,
            Error::SubxtError(_) => "Error from subxt crate: failed to commit this transaction"@,
        }
    }

    pub fn description(&self) -> (r: &'static str)
        ensures
            r@ == self.spec_description(),
    {
        match self {
            Error::NullPtr(_) => " is null pointer.",
            Error::CStrConvertError => "Failed to convert c string to rust string.",
            Error::WrongLength(_, _) => "Buffer has a wrong length.",
            Error::PublicKeyError => "Failed to convert string to PublicKey.",
            Error::SignatureError => "Failed to convert string to Signature.",
            Error::StructuralMismatch(_, _) => "Block headers and block id lists differ in number.",
            Error::WrongSudoSeed => "Wrong sudo seed, failed to sign transaction.",
            Error::SubxtError(LedgerErrorKind::Connection) => "Error from subxt crate: failed to create subxt client",
            Error::SubxtError(_) => "Error from subxt crate: failed to commit this transaction",
        }
    }

    pub open spec fn spec_message(self) -> Seq<char> {
        match self {
            Error::NullPtr(f) => f.spec_name() + " is null pointer."@,
            Error::WrongLength(expected, actual) => "Buffer has a wrong length: expected "@
                + decimal_text(expected as nat) + " bytes, found "@ + decimal_text(actual as nat)
                + "."@,
            Error::StructuralMismatch(headers, id_lists) =>
                "Block headers and block id lists differ in number: "@ + decimal_text(
                headers as nat,
            ) + " headers, "@ + decimal_text(id_lists as nat) + " id lists."@,
            _ => self.spec_description(),
        }
    }

    /// The human-readable text of the error.
    pub fn message(&self) -> (r: String)
        ensures
            r@ == self.spec_message(),
    {
        match self {
            Error::NullPtr(f) => String::from_str(f.name()).concat(" is null pointer."),
            Error::WrongLength(expected, actual) => String::from_str(
                "Buffer has a wrong length: expected ",
            ).concat(decimal(*expected).as_str()).concat(" bytes, found ").concat(
                decimal(*actual).as_str(),
            ).concat("."),
            Error::StructuralMismatch(headers, id_lists) => String::from_str(
                "Block headers and block id lists differ in number: ",
            ).concat(decimal(*headers).as_str()).concat(" headers, ").concat(
                decimal(*id_lists).as_str(),
            ).concat(" id lists."),
            _ => String::from_str(self.description()),
        }
    }
}

/// The earlier of two errors.
pub open spec fn first_of(a: Option<Error>, b: Option<Error>) -> Option<Error> {
    if a is Some {
        a
    } else {
        b
    }
}

/// A null pointer's error where `p` is null.
pub open spec fn null_error<T>(p: Option<T>, field: Field) -> Option<Error> {
    if p is None {
        Some(Error::NullPtr(field))
    } else {
        None
    }
}

/// A decoded request together with where and as whom to submit it.
pub struct ProofRequest<T> {
    pub url: String,
    pub signer: String,
    pub args: T,
}

/// The error for the first absent pointer, in argument order, if one is.
pub open spec fn first_null(present: Seq<(bool, Field)>) -> Option<Error>
    decreases present.len(),
{
    if present.len() == 0 {
        None
    } else if !present[0].0 {
        Some(Error::NullPtr(present[0].1))
    } else {
        first_null(present.skip(1))
    }
}

/// Checks, before anything is read, that each required pointer is there;
/// `present` lists them in argument order.
pub fn check_pointers(present: &[(bool, Field)]) -> (r: Result<(), Error>)
    ensures
        match r {
            Ok(_) => first_null(present@) is None,
            Err(e) => first_null(present@) == Some(e),
        },
{
    let mut i: usize = 0;
    assert(present@.skip(0) =~= present@);
    while i < present.len()
        invariant
            i <= present@.len(),
            first_null(present@) == first_null(present@.skip(i as int)),
        decreases present@.len() - i,
    {
        let (is_there, field) = present[i];
        assert(present@.skip(i as int).skip(1) =~= present@.skip(i as int + 1));
        if !is_there {
            return Err(Error::NullPtr(field));
        }
        i = i + 1;
    }
    Ok(())
}

/// Every pointer is checked first, in argument order; then each argument is
/// decoded in that order; then the bundle's structure.
pub open spec fn prove_action_error(
    urls: Option<&[u8]>,
    signer: Option<&[u8]>,
    act_ffi: Option<&ActionFFI>,
    imcre_merkle: Option<&IncrementalMerkleFFI>,
    act_receipt: Option<&ActionReceiptFFI>,
    action_merkle_paths: Option<&Checksum256ListFFI>,
    blocks_ffi: Option<&[SignedBlockHeaderFFI]>,
    ids_list: Option<&[Checksum256ListFFI]>,
) -> Option<Error> {
    first_of(
        null_error(urls, Field::NodeUrl),
        first_of(
            null_error(signer, Field::Signer),
            first_of(
                null_error(act_ffi, Field::Action),
                first_of(
                    null_error(imcre_merkle, Field::MerkleState),
                    first_of(
                        null_error(act_receipt, Field::ActionReceipt),
                        first_of(
                            null_error(action_merkle_paths, Field::ActionMerklePaths),
                            first_of(
                                null_error(blocks_ffi, Field::BlockHeaders),
                                first_of(
                                    null_error(ids_list, Field::BlockIdLists),
                                    first_of(
                                        act_ffi->Some_0.first_error(),
                                        first_of(
                                            imcre_merkle->Some_0.first_error(),
                                            first_of(
                                                act_receipt->Some_0.first_error(),
                                                first_of(
                                                    action_merkle_paths->Some_0.first_error(),
                                                    first_of(
                                                        list_error(blocks_ffi->Some_0@),
                                                        first_of(
                                                            list_error(ids_list->Some_0@),
                                                            first_of(
                                                                string_error(urls, Field::NodeUrl),
                                                                first_of(
                                                                    string_error(signer, Field::Signer),
                                                                    mismatch_error(
                                                                        blocks_ffi->Some_0@.len(),
                                                                        ids_list->Some_0@.len(),
                                                                    ),
                                                                ),
                                                            ),
                                                        ),
                                                    ),
                                                ),
                                            ),
                                        ),
                                    ),
                                ),
                            ),
                        ),
                    ),
                ),
            ),
        ),
    )
}

/// Decodes and assembles an action proof from caller memory. Nothing is
/// submitted: a request that fails here never reaches the ledger.
pub fn prove_action(
    urls: Option<&[u8]>,
    signer: Option<&[u8]>,
    act_ffi: Option<&ActionFFI>,
    imcre_merkle: Option<&IncrementalMerkleFFI>,
    act_receipt: Option<&ActionReceiptFFI>,
    action_merkle_paths: Option<&Checksum256ListFFI>,
    blocks_ffi: Option<&[SignedBlockHeaderFFI]>,
    ids_list: Option<&[Checksum256ListFFI]>,
    trx_id: Checksum256,
) -> (r: Result<ProofRequest<ProveActionArgs>, Error>)
    ensures
        match r {
            Ok(req) => {
                &&& prove_action_error(
                    urls,
                    signer,
                    act_ffi,
                    imcre_merkle,
                    act_receipt,
                    action_merkle_paths,
                    blocks_ffi,
                    ids_list,
                ) is None
                &&& req.url@ == decode_utf8(urls->Some_0@)
                &&& req.signer@ == decode_utf8(signer->Some_0@)
                &&& req.args.wf()
                &&& act_ffi->Some_0.decodes_to(req.args.action)
                &&& imcre_merkle->Some_0.decodes_to(req.args.merkle)
                &&& act_receipt->Some_0.decodes_to(req.args.action_receipt)
                &&& action_merkle_paths->Some_0.decodes_to(req.args.action_merkle_paths)
                &&& list_decodes_to(blocks_ffi->Some_0@, req.args.block_headers@)
                &&& list_decodes_to(ids_list->Some_0@, req.args.block_ids_list@)
                &&& req.args.trx_id == trx_id
            },
            Err(e) => prove_action_error(
                urls,
                signer,
                act_ffi,
                imcre_merkle,
                act_receipt,
                action_merkle_paths,
                blocks_ffi,
                ids_list,
            ) == Some(e),
        },
{
    if urls.is_none() {
        return Err(Error::NullPtr(Field::NodeUrl));
    }
    if signer.is_none() {
        return Err(Error::NullPtr(Field::Signer));
    }
    if act_ffi.is_none() {
        return Err(Error::NullPtr(Field::Action));
    }
    if imcre_merkle.is_none() {
        return Err(Error::NullPtr(Field::MerkleState));
    }
    if act_receipt.is_none() {
        return Err(Error::NullPtr(Field::ActionReceipt));
    }
    if action_merkle_paths.is_none() {
        return Err(Error::NullPtr(Field::ActionMerklePaths));
    }
    if blocks_ffi.is_none() {
        return Err(Error::NullPtr(Field::BlockHeaders));
    }
    if ids_list.is_none() {
        return Err(Error::NullPtr(Field::BlockIdLists));
    }
    match (act_ffi, imcre_merkle, act_receipt, action_merkle_paths, blocks_ffi, ids_list) {
        (Some(a), Some(m), Some(rc), Some(p), Some(b), Some(ids)) => {
            let action = a.decode()?;
            let merkle = m.decode()?;
            let action_receipt = rc.decode()?;
            let paths = p.decode()?;
            let block_headers = decode_list(b)?;
            let block_ids_list = decode_list(ids)?;
            let url = char_to_string(urls, Field::NodeUrl)?;
            let signer = char_to_string(signer, Field::Signer)?;
            let args = ProveActionArgs::new(
                action,
                action_receipt,
                paths,
                merkle,
                block_headers,
                block_ids_list,
                trx_id,
            )?;
            Ok(ProofRequest { url, signer, args })
        },
        _ => Err(Error::NullPtr(Field::Action)),
    }
}

/// Every pointer is checked first, in argument order; then each argument is
/// decoded in that order; then the bundle's structure.
pub open spec fn change_schedule_error(
    urls: Option<&[u8]>,
    signer: Option<&[u8]>,
    schedule: Option<&ProducerScheduleFFI>,
    imcre_merkle: Option<&IncrementalMerkleFFI>,
    blocks_ffi: Option<&[SignedBlockHeaderFFI]>,
    ids_list: Option<&[Checksum256ListFFI]>,
) -> Option<Error> {
    first_of(
        null_error(urls, Field::NodeUrl),
        first_of(
            null_error(signer, Field::Signer),
            first_of(
                null_error(schedule, Field::Schedule),
                first_of(
                    null_error(imcre_merkle, Field::MerkleState),
                    first_of(
                        null_error(blocks_ffi, Field::BlockHeaders),
                        first_of(
                            null_error(ids_list, Field::BlockIdLists),
                            first_of(
                                string_error(urls, Field::NodeUrl),
                                first_of(
                                    string_error(signer, Field::Signer),
                                    first_of(
                                        schedule->Some_0.first_error(),
                                        first_of(
                                            imcre_merkle->Some_0.first_error(),
                                            first_of(
                                                list_error(blocks_ffi->Some_0@),
                                                first_of(
                                                    list_error(ids_list->Some_0@),
                                                    mismatch_error(
                                                        blocks_ffi->Some_0@.len(),
                                                        ids_list->Some_0@.len(),
                                                    ),
                                                ),
                                            ),
                                        ),
                                    ),
                                ),
                            ),
                        ),
                    ),
                ),
            ),
        ),
    )
}

/// Decodes and assembles a producer schedule change from caller memory.
/// Nothing is submitted: a request that fails here never reaches the ledger.
pub fn change_schedule(
    urls: Option<&[u8]>,
    signer: Option<&[u8]>,
    legacy_schedule_hash: Checksum256,
    schedule: Option<&ProducerScheduleFFI>,
    imcre_merkle: Option<&IncrementalMerkleFFI>,
    blocks_ffi: Option<&[SignedBlockHeaderFFI]>,
    ids_list: Option<&[Checksum256ListFFI]>,
) -> (r: Result<ProofRequest<ChangeScheduleArgs>, Error>)
    ensures
        match r {
            Ok(req) => {
                &&& change_schedule_error(urls, signer, schedule, imcre_merkle, blocks_ffi, ids_list)
                    is None
                &&& req.url@ == decode_utf8(urls->Some_0@)
                &&& req.signer@ == decode_utf8(signer->Some_0@)
                &&& req.args.wf()
                &&& req.args.legacy_schedule_hash == legacy_schedule_hash
                &&& schedule->Some_0.decodes_to(req.args.schedule)
                &&& imcre_merkle->Some_0.decodes_to(req.args.merkle)
                &&& list_decodes_to(blocks_ffi->Some_0@, req.args.block_headers@)
                &&& list_decodes_to(ids_list->Some_0@, req.args.block_ids_list@)
            },
            Err(e) => change_schedule_error(
                urls,
                signer,
                schedule,
                imcre_merkle,
                blocks_ffi,
                ids_list,
            ) == Some(e),
        },
{
    if urls.is_none() {
        return Err(Error::NullPtr(Field::NodeUrl));
    }
    if signer.is_none() {
        return Err(Error::NullPtr(Field::Signer));
    }
    if schedule.is_none() {
        return Err(Error::NullPtr(Field::Schedule));
    }
    if imcre_merkle.is_none() {
        return Err(Error::NullPtr(Field::MerkleState));
    }
    if blocks_ffi.is_none() {
        return Err(Error::NullPtr(Field::BlockHeaders));
    }
    if ids_list.is_none() {
        return Err(Error::NullPtr(Field::BlockIdLists));
    }
    match (schedule, imcre_merkle, blocks_ffi, ids_list) {
        (Some(s), Some(m), Some(b), Some(ids)) => {
            let url = char_to_string(urls, Field::NodeUrl)?;
            let signer = char_to_string(signer, Field::Signer)?;
            let new_schedule = s.decode()?;
            let merkle = m.decode()?;
            let block_headers = decode_list(b)?;
            let block_ids_list = decode_list(ids)?;
            let args = ChangeScheduleArgs::new(
                legacy_schedule_hash,
                new_schedule,
                merkle,
                block_headers,
                block_ids_list,
            )?;
            Ok(ProofRequest { url, signer, args })
        },
        _ => Err(Error::NullPtr(Field::Schedule)),
    }
}

} // verus!
