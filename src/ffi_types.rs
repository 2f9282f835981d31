//! Views of caller memory and their decoding into ledger values.
//!
//! A view holds `None` where the caller passed a null pointer, and otherwise
//! exactly the elements that the caller declared: nothing past the declared
//! count is ever reachable through it.
use vstd::prelude::*;
use vstd::string::*;
use vstd::utf8::{valid_utf8, decode_utf8};
use crate::chain::{
    Action, ActionReceipt, BlockHeader, Checksum256, Extension, IncrementalMerkle,
    PermissionLevel, ProducerKey, ProducerSchedule, SignedBlockHeader, AccountName,
    ActionName, BlockTimestamp,
};
use crate::{Error, Field};

verus! {

/// Length of a digest in bytes.
pub const CHECKSUM_LEN: usize = 32;

/// A foreign value that decodes into an owned ledger value.
///
/// `first_error` is the error of the first field, in decoding order, that
/// fails; `decodes_to` says which value a view without error stands for.
pub trait DecodeForeign {
    type Value;

    spec fn first_error(&self) -> Option<Error>;

    spec fn decodes_to(&self, v: Self::Value) -> bool;

    fn decode(&self) -> (r: Result<Self::Value, Error>)
        ensures
            match r {
                Ok(v) => self.first_error() is None && self.decodes_to(v),
                Err(e) => self.first_error() == Some(e),
            },
    ;
}

/// The error of the first element that fails, if one does.
pub open spec fn list_error<T: DecodeForeign>(s: Seq<T>) -> Option<Error> {
    if forall|i: int| 0 <= i < s.len() ==> (#[trigger] s[i].first_error()) is None {
        None
    } else {
        let i = choose|i: int|
            0 <= i < s.len() && (#[trigger] s[i].first_error()) is Some && forall|j: int|
                0 <= j < i ==> (#[trigger] s[j].first_error()) is None;
        s[i].first_error()
    }
}

/// `v` holds, in order, what each element of `s` decodes to.
pub open spec fn list_decodes_to<T: DecodeForeign>(s: Seq<T>, v: Seq<T::Value>) -> bool {
    &&& v.len() == s.len()
    &&& forall|i: int| 0 <= i < s.len() ==> #[trigger] s[i].decodes_to(v[i])
}

proof fn lemma_first_failure<T: DecodeForeign>(s: Seq<T>, i: int)
    requires
        0 <= i < s.len(),
        s[i].first_error() is Some,
        forall|j: int| 0 <= j < i ==> (#[trigger] s[j].first_error()) is None,
    ensures
        list_error(s) == s[i].first_error(),
{
    let k = choose|k: int|
        0 <= k < s.len() && (#[trigger] s[k].first_error()) is Some && forall|j: int|
            0 <= j < k ==> (#[trigger] s[j].first_error()) is None;
    assert(0 <= k < s.len() && s[k].first_error() is Some);
    if k < i {
        assert(s[k].first_error() is None);
    } else if k > i {
        assert(s[i].first_error() is None);
    }
}

/// Decodes every element in order; the first failure aborts the whole list.
/// An empty list decodes to an empty vector.
pub fn decode_list<T: DecodeForeign>(s: &[T]) -> (r: Result<Vec<T::Value>, Error>)
    ensures
        match r {
            Ok(v) => list_error(s@) is None && list_decodes_to(s@, v@),
            Err(e) => list_error(s@) == Some(e),
        },
{
    let mut out: Vec<T::Value> = Vec::new();
    let mut i: usize = 0;
    while i < s.len()
        invariant
            i <= s@.len(),
            out@.len() == i,
            forall|j: int| 0 <= j < i ==> (#[trigger] s@[j].first_error()) is None,
            forall|j: int| 0 <= j < i ==> #[trigger] s@[j].decodes_to(out@[j]),
        decreases s@.len() - i,
    {
        match s[i].decode() {
            Ok(v) => {
                out.push(v);
            },
            Err(e) => {
                proof {
                    lemma_first_failure(s@, i as int);
                }
                return Err(e);
            },
        }
        i = i + 1;
    }
    Ok(out)
}

/// Copies the elements of a view into an owned vector.
pub fn copy_slice<T: Copy>(s: &[T]) -> (r: Vec<T>)
    ensures
        r@ == s@,
{
    let mut r: Vec<T> = Vec::new();
    let mut i: usize = 0;
    while i < s.len()
        invariant
            i <= s@.len(),
            r@ == s@.subrange(0, i as int),
        decreases s@.len() - i,
    {
        r.push(s[i]);
        i = i + 1;
    }
    assert(r@ =~= s@);
    r
}

/// Relies on std's `str::from_utf8`: it accepts exactly the valid UTF-8 byte
/// strings, and the text it then reads is their decoding.
#[verifier::external_body]
fn utf8_to_string(bytes: &[u8]) -> (r: Option<String>)
    ensures
        r is Some <==> valid_utf8(bytes@),
        r matches Some(s) ==> s@ == decode_utf8(bytes@),
{
    std::str::from_utf8(bytes).ok().map(|s| s.to_string())
}

/// What decoding a foreign string gives: its null check, then UTF-8.
pub open spec fn string_error(s: Option<&[u8]>, field: Field) -> Option<Error> {
    match s {
        None => Some(Error::NullPtr(field)),
        Some(b) => if valid_utf8(b@) {
            None
        } else {
            Some(Error::CStrConvertError)
        },
    }
}

/// Decodes a foreign, null-terminated string, given as the bytes before its
/// terminator. `field` names it in the error for a null pointer.
pub fn char_to_string(cstr: Option<&[u8]>, field: Field) -> (r: Result<String, Error>)
    ensures
        match r {
            Ok(s) => string_error(cstr, field) is None && s@ == decode_utf8(cstr->Some_0@),
            Err(e) => string_error(cstr, field) == Some(e),
        },
{
    match cstr {
        None => Err(Error::NullPtr(field)),
        Some(b) => match utf8_to_string(b) {
            Some(s) => Ok(s),
            None => Err(Error::CStrConvertError),
        },
    }
}

/// A digest as the caller lays it out: a pointer and a declared length.
#[derive(Clone, Copy)]
pub struct Checksum256FFI<'a> {
    pub data: Option<&'a [u8]>,
}

impl<'a> DecodeForeign for Checksum256FFI<'a> {
    type Value = Checksum256;

    open spec fn first_error(&self) -> Option<Error> {
        match self.data {
            None => Some(Error::NullPtr(Field::Checksum)),
            Some(d) => if d@.len() == CHECKSUM_LEN {
                None
            } else {
                Some(Error::WrongLength(CHECKSUM_LEN, d@.len() as usize))
            },
        }
    }

    open spec fn decodes_to(&self, v: Checksum256) -> bool {
        self.data matches Some(d) && v.hash@ == d@
    }

    /// Takes exactly 32 bytes; any other declared length is refused.
    fn decode(&self) -> (r: Result<Checksum256, Error>) {
        match self.data {
            None => Err(Error::NullPtr(Field::Checksum)),
            Some(d) => {
                if d.len() != CHECKSUM_LEN {
                    return Err(Error::WrongLength(CHECKSUM_LEN, d.len()));
                }
                let mut hash: [u8; 32] = [0u8; 32];
                let mut i: usize = 0;
                while i < CHECKSUM_LEN
                    invariant
                        d@.len() == CHECKSUM_LEN,
                        i <= CHECKSUM_LEN,
                        forall|j: int| 0 <= j < i ==> hash@[j] == d@[j],
                    decreases CHECKSUM_LEN - i,
                {
                    hash[i] = d[i];
                    i = i + 1;
                }
                assert(hash@ =~= d@);
                Ok(Checksum256 { hash })
            },
        }
    }
}

/// A digest view of exactly 32 bytes decodes without error, and the digest
/// it decodes to holds those same 32 bytes, in order.
pub proof fn lemma_checksum_round_trip(f: Checksum256FFI, c: Checksum256)
    requires
        f.data is Some,
        f.data->Some_0@.len() == CHECKSUM_LEN,
    ensures
        f.first_error() is None,
        f.decodes_to(c) <==> c.hash@ == f.data->Some_0@,
{
}

/// A digest view of any other declared length fails with `WrongLength`,
/// naming 32 and that length.
pub proof fn lemma_checksum_wrong_length(f: Checksum256FFI)
    requires
        f.data is Some,
        f.data->Some_0@.len() != CHECKSUM_LEN,
    ensures
        f.first_error() == Some(Error::WrongLength(CHECKSUM_LEN, f.data->Some_0@.len() as usize)),
{
}

/// A list of digests: a pointer to digest views and their count.
#[derive(Clone, Copy)]
pub struct Checksum256ListFFI<'a> {
    pub ids: Option<&'a [Checksum256FFI<'a>]>,
}

impl<'a> DecodeForeign for Checksum256ListFFI<'a> {
    type Value = Vec<Checksum256>;

    open spec fn first_error(&self) -> Option<Error> {
        match self.ids {
            None => Some(Error::NullPtr(Field::ChecksumList)),
            Some(s) => list_error(s@),
        }
    }

    open spec fn decodes_to(&self, v: Vec<Checksum256>) -> bool {
        self.ids matches Some(s) && list_decodes_to(s@, v@)
    }

    fn decode(&self) -> (r: Result<Vec<Checksum256>, Error>) {
        match self.ids {
            None => Err(Error::NullPtr(Field::ChecksumList)),
            Some(s) => decode_list(s),
        }
    }
}

#[derive(Clone, Copy)]
pub struct ActionFFI<'a> {
    pub account: AccountName,
    pub name: ActionName,
    pub authorization: Option<&'a [PermissionLevel]>,
    pub data: Option<&'a [u8]>,
}

impl<'a> DecodeForeign for ActionFFI<'a> {
    type Value = Action;

    open spec fn first_error(&self) -> Option<Error> {
        if self.authorization is None {
            Some(Error::NullPtr(Field::Authorization))
        } else if self.data is None {
            Some(Error::NullPtr(Field::ActionData))
        } else {
            None
        }
    }

    open spec fn decodes_to(&self, v: Action) -> bool {
        &&& v.account == self.account
        &&& v.name == self.name
        &&& self.authorization matches Some(a) && v.authorization@ == a@
        &&& self.data matches Some(d) && v.data@ == d@
    }

    fn decode(&self) -> (r: Result<Action, Error>) {
        match (self.authorization, self.data) {
            (None, _) => Err(Error::NullPtr(Field::Authorization)),
            (_, None) => Err(Error::NullPtr(Field::ActionData)),
            (Some(a), Some(d)) => Ok(
                Action {
                    account: self.account,
                    name: self.name,
                    authorization: copy_slice(a),
                    data: copy_slice(d),
                },
            ),
        }
    }
}

/// The value that the last entry for account `k` in `s` gives it, if any
/// entry names `k`.
pub open spec fn auth_value(s: Seq<(AccountName, u64)>, k: AccountName) -> Option<u64>
    decreases s.len(),
{
    if s.len() == 0 {
        None
    } else if s.last().0 == k {
        Some(s.last().1)
    } else {
        auth_value(s.drop_last(), k)
    }
}

/// Accounts strictly increasing, so each appears once.
pub open spec fn keys_increasing(s: Seq<(AccountName, u64)>) -> bool {
    forall|i: int, j: int| 0 <= i < j < s.len() ==> s[i].0 < s[j].0
}

/// `v` is the mapping that `s` assigns, one entry per account, in account
/// order; where `s` names an account twice the later entry counts.
pub open spec fn flat_map_of(s: Seq<(AccountName, u64)>, v: Seq<(AccountName, u64)>) -> bool {
    &&& keys_increasing(v)
    &&& forall|k: AccountName| #[trigger] auth_value(v, k) == auth_value(s, k)
}

proof fn lemma_auth_value_at(v: Seq<(AccountName, u64)>, i: int)
    requires
        keys_increasing(v),
        0 <= i < v.len(),
    ensures
        auth_value(v, v[i].0) == Some(v[i].1),
    decreases v.len(),
{
    if i < v.len() - 1 {
        let t = v.drop_last();
        assert(t[i] == v[i]);
        assert(keys_increasing(t)) by {
            assert forall|a: int, b: int| 0 <= a < b < t.len() implies t[a].0 < t[b].0 by {
                assert(t[a] == v[a] && t[b] == v[b]);
            }
        }
        lemma_auth_value_at(t, i);
    }
}

proof fn lemma_auth_value_absent(v: Seq<(AccountName, u64)>, k: AccountName)
    requires
        forall|i: int| 0 <= i < v.len() ==> (#[trigger] v[i]).0 != k,
    ensures
        auth_value(v, k) is None,
    decreases v.len(),
{
    if v.len() > 0 {
        let t = v.drop_last();
        assert forall|i: int| 0 <= i < t.len() implies (#[trigger] t[i]).0 != k by {
            assert(t[i] == v[i]);
        }
        assert(v[v.len() - 1].0 != k);
        lemma_auth_value_absent(t, k);
    }
}

proof fn lemma_auth_value_cases(v: Seq<(AccountName, u64)>, k: AccountName)
    requires
        keys_increasing(v),
    ensures
        (exists|i: int| 0 <= i < v.len() && (#[trigger] v[i]).0 == k) || auth_value(v, k) is None,
{
    if !(exists|i: int| 0 <= i < v.len() && (#[trigger] v[i]).0 == k) {
        lemma_auth_value_absent(v, k);
    }
}

/// Enters `value` for account `k`, replacing an earlier value for it.
fn insert_auth(v: &mut Vec<(AccountName, u64)>, k: AccountName, value: u64)
    requires
        keys_increasing(old(v)@),
    ensures
        keys_increasing(final(v)@),
        forall|k2: AccountName|
            #[trigger] auth_value(final(v)@, k2) == if k2 == k {
                Some(value)
            } else {
                auth_value(old(v)@, k2)
            },
{
    let ghost o = v@;
    let mut p: usize = 0;
    while p < v.len() && v[p].0 < k
        invariant
            v@ == o,
            p <= v@.len(),
            forall|j: int| 0 <= j < p ==> (#[trigger] v@[j]).0 < k,
        decreases v@.len() - p,
    {
        p = p + 1;
    }
    if p < v.len() && v[p].0 == k {
        v.set(p, (k, value));
        assert(keys_increasing(v@)) by {
            assert forall|a: int, b: int| 0 <= a < b < v@.len() implies v@[a].0 < v@[b].0 by {
                assert(v@[a].0 == o[a].0 && v@[b].0 == o[b].0);
            }
        }
        assert forall|k2: AccountName|
            #[trigger] auth_value(v@, k2) == if k2 == k {
                Some(value)
            } else {
                auth_value(o, k2)
            } by {
            if k2 == k {
                lemma_auth_value_at(v@, p as int);
            } else {
                lemma_auth_value_cases(o, k2);
                if exists|i: int| 0 <= i < o.len() && (#[trigger] o[i]).0 == k2 {
                    let i = choose|i: int| 0 <= i < o.len() && (#[trigger] o[i]).0 == k2;
                    assert(v@[i] == o[i]);
                    lemma_auth_value_at(o, i);
                    lemma_auth_value_at(v@, i);
                } else {
                    assert forall|i: int| 0 <= i < v@.len() implies (#[trigger] v@[i]).0 != k2 by {
                        if i != p {
                            assert(v@[i] == o[i]);
                        }
                    }
                    lemma_auth_value_absent(v@, k2);
                }
            }
        }
    } else {
        assert(forall|j: int| p <= j < o.len() ==> o[j].0 > k) by {
            assert forall|j: int| p <= j < o.len() implies o[j].0 > k by {
                if j > p {
                    assert(o[p as int].0 < o[j].0);
                }
            }
        }
        v.insert(p, (k, value));
        assert(v@ == o.insert(p as int, (k, value)));
        assert(keys_increasing(v@)) by {
            assert forall|a: int, b: int| 0 <= a < b < v@.len() implies v@[a].0 < v@[b].0 by {
                if a < p {
                    assert(v@[a] == o[a]);
                } else if a > p {
                    assert(v@[a] == o[a - 1]);
                }
                if b < p {
                    assert(v@[b] == o[b]);
                } else if b > p {
                    assert(v@[b] == o[b - 1]);
                }
            }
        }
        assert forall|k2: AccountName|
            #[trigger] auth_value(v@, k2) == if k2 == k {
                Some(value)
            } else {
                auth_value(o, k2)
            } by {
            if k2 == k {
                lemma_auth_value_at(v@, p as int);
            } else {
                lemma_auth_value_cases(o, k2);
                if exists|i: int| 0 <= i < o.len() && (#[trigger] o[i]).0 == k2 {
                    let i = choose|i: int| 0 <= i < o.len() && (#[trigger] o[i]).0 == k2;
                    lemma_auth_value_at(o, i);
                    if i < p {
                        assert(v@[i] == o[i]);
                        lemma_auth_value_at(v@, i);
                    } else {
                        assert(v@[i + 1] == o[i]);
                        lemma_auth_value_at(v@, i + 1);
                    }
                } else {
                    assert forall|i: int| 0 <= i < v@.len() implies (#[trigger] v@[i]).0 != k2 by {
                        if i < p {
                            assert(v@[i] == o[i]);
                        } else if i > p {
                            assert(v@[i] == o[i - 1]);
                        }
                    }
                    lemma_auth_value_absent(v@, k2);
                }
            }
        }
    }
}

/// Builds the account-to-sequence mapping of a receipt from its entries.
pub fn flat_map_assign(s: &[(AccountName, u64)]) -> (r: Vec<(AccountName, u64)>)
    ensures
        flat_map_of(s@, r@),
{
    let mut r: Vec<(AccountName, u64)> = Vec::new();
    let mut i: usize = 0;
    while i < s.len()
        invariant
            i <= s@.len(),
            flat_map_of(s@.take(i as int), r@),
        decreases s@.len() - i,
    {
        let (k, value) = s[i];
        insert_auth(&mut r, k, value);
        proof {
            let t = s@.take(i as int + 1);
            assert(t.drop_last() =~= s@.take(i as int));
            assert(t.last() == s@[i as int]);
            assert forall|k2: AccountName| #[trigger] auth_value(r@, k2) == auth_value(t, k2) by {}
        }
        i = i + 1;
    }
    assert(s@.take(s@.len() as int) =~= s@);
    r
}

#[derive(Clone, Copy)]
pub struct ActionReceiptFFI<'a> {
    pub receiver: AccountName,
    pub act_digest: Checksum256,
    pub global_sequence: u64,
    pub recv_sequence: u64,
    pub auth_sequence: Option<&'a [(AccountName, u64)]>,
    pub code_sequence: u32,
    pub abi_sequence: u32,
}

impl<'a> DecodeForeign for ActionReceiptFFI<'a> {
    type Value = ActionReceipt;

    open spec fn first_error(&self) -> Option<Error> {
        if self.auth_sequence is None {
            Some(Error::NullPtr(Field::AuthSequence))
        } else {
            None
        }
    }

    open spec fn decodes_to(&self, v: ActionReceipt) -> bool {
        &&& v.receiver == self.receiver
        &&& v.act_digest == self.act_digest
        &&& v.global_sequence == self.global_sequence
        &&& v.recv_sequence == self.recv_sequence
        &&& self.auth_sequence matches Some(a) && flat_map_of(a@, v.auth_sequence@)
        &&& v.code_sequence == self.code_sequence
        &&& v.abi_sequence == self.abi_sequence
    }

    fn decode(&self) -> (r: Result<ActionReceipt, Error>) {
        match self.auth_sequence {
            None => Err(Error::NullPtr(Field::AuthSequence)),
            Some(a) => Ok(
                ActionReceipt {
                    receiver: self.receiver,
                    act_digest: self.act_digest,
                    global_sequence: self.global_sequence,
                    recv_sequence: self.recv_sequence,
                    auth_sequence: flat_map_assign(a),
                    code_sequence: self.code_sequence,
                    abi_sequence: self.abi_sequence,
                },
            ),
        }
    }
}

#[derive(Clone, Copy)]
pub struct IncrementalMerkleFFI<'a> {
    pub node_count: u64,
    pub active_nodes: Option<&'a [Checksum256]>,
}

impl<'a> DecodeForeign for IncrementalMerkleFFI<'a> {
    type Value = IncrementalMerkle;

    open spec fn first_error(&self) -> Option<Error> {
        if self.active_nodes is None {
            Some(Error::NullPtr(Field::ActiveNodes))
        } else {
            None
        }
    }

    open spec fn decodes_to(&self, v: IncrementalMerkle) -> bool {
        &&& v.node_count == self.node_count
        &&& self.active_nodes matches Some(a) && v.active_nodes@ == a@
    }

    fn decode(&self) -> (r: Result<IncrementalMerkle, Error>) {
        match self.active_nodes {
            None => Err(Error::NullPtr(Field::ActiveNodes)),
            Some(a) => Ok(IncrementalMerkle { node_count: self.node_count, active_nodes: copy_slice(a) }),
        }
    }
}

#[derive(Clone, Copy)]
pub struct ExtensionFFI<'a> {
    pub kind: u16,
    pub data: Option<&'a [u8]>,
}

impl<'a> DecodeForeign for ExtensionFFI<'a> {
    type Value = Extension;

    open spec fn first_error(&self) -> Option<Error> {
        if self.data is None {
            Some(Error::NullPtr(Field::ExtensionData))
        } else {
            None
        }
    }

    open spec fn decodes_to(&self, v: Extension) -> bool {
        &&& v.kind == self.kind
        &&& self.data matches Some(d) && v.data@ == d@
    }

    fn decode(&self) -> (r: Result<Extension, Error>) {
        match self.data {
            None => Err(Error::NullPtr(Field::ExtensionData)),
            Some(d) => Ok(Extension { kind: self.kind, data: copy_slice(d) }),
        }
    }
}

#[derive(Clone, Copy)]
pub struct ExtensionsFFI<'a> {
    pub extensions: Option<&'a [ExtensionFFI<'a>]>,
}

impl<'a> DecodeForeign for ExtensionsFFI<'a> {
    type Value = Vec<Extension>;

    open spec fn first_error(&self) -> Option<Error> {
        match self.extensions {
            None => Some(Error::NullPtr(Field::Extensions)),
            Some(s) => list_error(s@),
        }
    }

    open spec fn decodes_to(&self, v: Vec<Extension>) -> bool {
        self.extensions matches Some(s) && list_decodes_to(s@, v@)
    }

    fn decode(&self) -> (r: Result<Vec<Extension>, Error>) {
        match self.extensions {
            None => Err(Error::NullPtr(Field::Extensions)),
            Some(s) => decode_list(s),
        }
    }
}

/// A producer and its block signing key as a foreign string.
///
/// Decoding checks the pointer and the UTF-8 of the key text and keeps the
/// text. It does not parse the text as a public key: the library links no
/// parser for that key format, so a text that is no key is accepted here and
/// `Error::PublicKeyError` never comes from this decoder.
#[derive(Clone, Copy)]
pub struct ProducerKeyFFI<'a> {
    pub producer_name: AccountName,
    pub block_signing_key: Option<&'a [u8]>,
}

impl<'a> DecodeForeign for ProducerKeyFFI<'a> {
    type Value = ProducerKey;

    open spec fn first_error(&self) -> Option<Error> {
        string_error(self.block_signing_key, Field::SigningKey)
    }

    open spec fn decodes_to(&self, v: ProducerKey) -> bool {
        &&& v.producer_name == self.producer_name
        &&& self.block_signing_key matches Some(k) && v.block_signing_key@ == decode_utf8(k@)
    }

    fn decode(&self) -> (r: Result<ProducerKey, Error>) {
        let block_signing_key = char_to_string(self.block_signing_key, Field::SigningKey)?;
        Ok(ProducerKey { producer_name: self.producer_name, block_signing_key })
    }
}

#[derive(Clone, Copy)]
pub struct ProducerScheduleFFI<'a> {
    pub version: u32,
    pub producers: Option<&'a [ProducerKeyFFI<'a>]>,
}

impl<'a> DecodeForeign for ProducerScheduleFFI<'a> {
    type Value = ProducerSchedule;

    open spec fn first_error(&self) -> Option<Error> {
        match self.producers {
            None => Some(Error::NullPtr(Field::Producers)),
            Some(s) => list_error(s@),
        }
    }

    open spec fn decodes_to(&self, v: ProducerSchedule) -> bool {
        &&& v.version == self.version
        &&& self.producers matches Some(s) && list_decodes_to(s@, v.producers@)
    }

    fn decode(&self) -> (r: Result<ProducerSchedule, Error>) {
        match self.producers {
            None => Err(Error::NullPtr(Field::Producers)),
            Some(s) => {
                let producers = decode_list(s)?;
                Ok(ProducerSchedule { version: self.version, producers })
            },
        }
    }
}

/// A block header as the caller lays it out. A null `new_producers` means
/// no schedule change; a null `header_extensions` means none.
#[derive(Clone, Copy)]
pub struct BlockHeaderFFI<'a> {
    pub timestamp: BlockTimestamp,
    pub producer: AccountName,
    pub confirmed: u16,
    pub previous: Checksum256FFI<'a>,
    pub transaction_mroot: Checksum256FFI<'a>,
    pub action_mroot: Checksum256FFI<'a>,
    pub schedule_version: u32,
    pub new_producers: Option<&'a ProducerScheduleFFI<'a>>,
    pub header_extensions: Option<&'a ExtensionsFFI<'a>>,
}

impl<'a> DecodeForeign for BlockHeaderFFI<'a> {
    type Value = BlockHeader;

    open spec fn first_error(&self) -> Option<Error> {
        if self.previous.first_error() is Some {
            self.previous.first_error()
        } else if self.transaction_mroot.first_error() is Some {
            self.transaction_mroot.first_error()
        } else if self.action_mroot.first_error() is Some {
            self.action_mroot.first_error()
        } else if self.new_producers is Some && self.new_producers->Some_0.first_error() is Some {
            self.new_producers->Some_0.first_error()
        } else {
            match self.header_extensions {
                None => None,
                Some(x) => x.first_error(),
            }
        }
    }

    open spec fn decodes_to(&self, v: BlockHeader) -> bool {
        &&& v.timestamp == self.timestamp
        &&& v.producer == self.producer
        &&& v.confirmed == self.confirmed
        &&& self.previous.decodes_to(v.previous)
        &&& self.transaction_mroot.decodes_to(v.transaction_mroot)
        &&& self.action_mroot.decodes_to(v.action_mroot)
        &&& v.schedule_version == self.schedule_version
        &&& match self.new_producers {
            None => v.new_producers is None,
            Some(p) => v.new_producers matches Some(s) && p.decodes_to(s),
        }
        &&& match self.header_extensions {
            None => v.header_extensions@.len() == 0,
            Some(x) => x.decodes_to(v.header_extensions),
        }
    }

    fn decode(&self) -> (r: Result<BlockHeader, Error>) {
        let previous = self.previous.decode()?;
        let transaction_mroot = self.transaction_mroot.decode()?;
        let action_mroot = self.action_mroot.decode()?;
        let new_producers = match self.new_producers {
            None => None,
            Some(p) => Some(p.decode()?),
        };
        let header_extensions = match self.header_extensions {
            None => Vec::new(),
            Some(x) => x.decode()?,
        };
        Ok(
            BlockHeader {
                timestamp: self.timestamp,
                producer: self.producer,
                confirmed: self.confirmed,
                previous,
                transaction_mroot,
                action_mroot,
                schedule_version: self.schedule_version,
                new_producers,
                header_extensions,
            },
        )
    }
}

/// A header and its producer's signature as a foreign string.
///
/// Decoding checks the pointer and the UTF-8 of the signature text and keeps
/// the text. It does not parse the text as a signature: the library links no
/// parser for that signature format, so a text that is no signature is
/// accepted here and `Error::SignatureError` never comes from this decoder.
#[derive(Clone, Copy)]
pub struct SignedBlockHeaderFFI<'a> {
    pub block_header: Option<&'a BlockHeaderFFI<'a>>,
    pub producer_signature: Option<&'a [u8]>,
}

impl<'a> DecodeForeign for SignedBlockHeaderFFI<'a> {
    type Value = SignedBlockHeader;

    open spec fn first_error(&self) -> Option<Error> {
        match self.block_header {
            None => Some(Error::NullPtr(Field::BlockHeader)),
            Some(h) => if string_error(self.producer_signature, Field::ProducerSignature) is Some {
                string_error(self.producer_signature, Field::ProducerSignature)
            } else {
                h.first_error()
            },
        }
    }

    open spec fn decodes_to(&self, v: SignedBlockHeader) -> bool {
        &&& self.block_header matches Some(h) && h.decodes_to(v.block_header)
        &&& self.producer_signature matches Some(p) && v.producer_signature@ == decode_utf8(p@)
    }

    fn decode(&self) -> (r: Result<SignedBlockHeader, Error>) {
        match self.block_header {
            None => Err(Error::NullPtr(Field::BlockHeader)),
            Some(h) => {
                let producer_signature = char_to_string(
                    self.producer_signature,
                    Field::ProducerSignature,
                )?;
                let block_header = h.decode()?;
                Ok(SignedBlockHeader { block_header, producer_signature })
            },
        }
    }
}

/// Text that stands in for a message the caller could not be handed.
pub const UNKNOWN_ERROR: &'static str = "unknown error.";

/// The answer handed back over the call boundary.
#[derive(Clone, Debug, PartialEq, Eq)]
pub struct RpcResponse {
    pub success: bool,
    /// The transaction identifier on success, else the error's text.
    pub msg: String,
}

/// Whether a text holds a NUL character, which a C string cannot carry.
pub open spec fn has_nul(s: Seq<char>) -> bool {
    exists|i: int| 0 <= i < s.len() && s[i] == '\0'
}

/// The message that the caller receives for `msg`.
pub open spec fn response_text(msg: Seq<char>) -> Seq<char> {
    if has_nul(msg) {
        "unknown error."@
    } else {
        msg
    }
}

/// Builds the answer; a message that a C string cannot carry is replaced by
/// a fixed text. Never fails.
pub fn generate_raw_result(success: bool, msg: &str) -> (r: RpcResponse)
    ensures
        r.success == success,
        r.msg@ == response_text(msg@),
{
    let n = msg.unicode_len();
    let mut i: usize = 0;
    while i < n
        invariant
            n == msg@.len(),
            i <= n,
            forall|j: int| 0 <= j < i ==> msg@[j] != '\0',
        decreases n - i,
    {
        if msg.get_char(i) == '\0' {
            return RpcResponse { success, msg: String::from_str(UNKNOWN_ERROR) };
        }
        i = i + 1;
    }
    RpcResponse { success, msg: String::from_str(msg) }
}

/// Success flag and message of the answer for an outcome.
pub open spec fn response_of(outcome: Result<String, Error>) -> (bool, Seq<char>) {
    match outcome {
        Ok(tx) => (true, response_text(tx@)),
        Err(e) => (false, response_text(e.spec_message())),
    }
}

/// The answer for the outcome of a request: its transaction identifier, or
/// the error's text.
pub fn respond(outcome: &Result<String, Error>) -> (r: RpcResponse)
    ensures
        (r.success, r.msg@) == response_of(*outcome),
{
    match outcome {
        Ok(tx) => generate_raw_result(true, tx.as_str()),
        Err(e) => {
            let m = e.message();
            generate_raw_result(false, m.as_str())
        },
    }
}

} // verus!
