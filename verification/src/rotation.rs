//! The chain of an identity's signing keys: each key signs the one that follows it.
use crate::bytes;
use crate::clock;
use crate::crypto;
use crate::did_key;
use crate::entropy;
use crate::identity::LocalIdentity;
use crate::key_bytes::KeyBytes;
use crate::logging::Scrubbed;
use crate::numeral;
use crate::text;
use vstd::prelude::*;

verus! {

/// An Ed25519 signing key, by its seed, which is erased when the key is dropped.
pub struct Ed25519Keypair {
    pub seed: Scrubbed<KeyBytes>,
}

impl Ed25519Keypair {
    /// The key of a seed.
    pub fn from_bytes(seed: &[u8; 32]) -> (key: Self)
        ensures
            key.seed.0.bytes == *seed,
    {
        Ed25519Keypair { seed: Scrubbed(KeyBytes { bytes: *seed }) }
    }

    /// The seed of the key.
    pub fn to_bytes(&self) -> (seed: [u8; 32])
        ensures
            seed == self.seed.0.bytes,
    {
        self.seed.0.bytes
    }

    /// The public key.
    pub fn verifying_key(&self) -> (public: [u8; 32])
        ensures
            public@ == crypto::ed25519_public(self.seed.0.bytes@),
            crypto::ed25519_key_fault(public@) is None,
    {
        crypto::ed25519_public_key(&self.seed.0.bytes)
    }

    /// The signature of a message.
    pub fn sign(&self, message: &[u8]) -> (signature: [u8; 64])
        ensures
            signature@ == crypto::ed25519_signature(self.seed.0.bytes@, message@),
            crypto::ed25519_fault(
                crypto::ed25519_public(self.seed.0.bytes@),
                message@,
                signature@,
            ) is None,
    {
        crypto::ed25519_sign(&self.seed.0.bytes, message)
    }
}

/// Takes the key that the last rotation left in `slot`.
pub fn take_last_generated_key(slot: &mut Option<Ed25519Keypair>) -> (key: Option<Ed25519Keypair>)
    ensures
        key == *old(slot),
        *final(slot) is None,
{
    slot.take()
}

/// What can go wrong with a chain.
#[derive(Debug, Clone)]
pub enum RotationError {
    EmptyChain,
    InvalidGenesisEpoch(u32),
    NonSequentialEpoch { expected: u32, actual: u32 },
    InvalidPublicKey(u32, String),
    SignatureVerificationFailed(u32, String),
    IdentityConversionError(String),
}

/// A `RotationError` by the text that it holds.
pub enum RotationFault {
    EmptyChain,
    InvalidGenesisEpoch(u32),
    NonSequentialEpoch { expected: u32, actual: u32 },
    InvalidPublicKey(u32, Seq<char>),
    SignatureVerificationFailed(u32, Seq<char>),
    IdentityConversionError(Seq<char>),
}

impl View for RotationError {
    type V = RotationFault;

    open spec fn view(&self) -> RotationFault {
        match *self {
            RotationError::EmptyChain => RotationFault::EmptyChain,
            RotationError::InvalidGenesisEpoch(epoch) => RotationFault::InvalidGenesisEpoch(epoch),
            RotationError::NonSequentialEpoch { expected, actual } => {
                RotationFault::NonSequentialEpoch { expected, actual }
            },
            RotationError::InvalidPublicKey(epoch, text) => RotationFault::InvalidPublicKey(
                epoch,
                text@,
            ),
            RotationError::SignatureVerificationFailed(epoch, text) => {
                RotationFault::SignatureVerificationFailed(epoch, text@)
            },
            RotationError::IdentityConversionError(text) => RotationFault::IdentityConversionError(
                text@,
            ),
        }
    }
}

/// The words for a `RotationError`.
pub open spec fn rotation_message(fault: RotationFault) -> Seq<char> {
    match fault {
        RotationFault::EmptyChain => "Rotation chain is empty"@,
        RotationFault::InvalidGenesisEpoch(epoch) => {
            "Invalid genesis record epoch: "@ + text::decimal_text(epoch as nat) + " (expected 0)"@
        },
        RotationFault::NonSequentialEpoch { expected, actual } => {
            "Non-sequential epoch sequence: expected "@ + text::decimal_text(expected as nat)
                + ", got "@ + text::decimal_text(actual as nat)
        },
        RotationFault::InvalidPublicKey(epoch, text) => {
            "Invalid public key at epoch "@ + text::decimal_text(epoch as nat) + ": "@ + text
        },
        RotationFault::SignatureVerificationFailed(epoch, text) => {
            "Signature verification failed at epoch "@ + text::decimal_text(epoch as nat) + ": "@
                + text
        },
        RotationFault::IdentityConversionError(text) => "Identity conversion error: "@ + text,
    }
}

impl RotationError {
    /// The error in words.
    pub fn message(&self) -> (message: String)
        ensures
            message@ == rotation_message(self@),
            match *self {
                RotationError::EmptyChain => message@ == "Rotation chain is empty"@,
                RotationError::InvalidGenesisEpoch(epoch) => message@
                    == "Invalid genesis record epoch: "@ + text::number_text(epoch as nat, 10)
                    + " (expected 0)"@,
                RotationError::NonSequentialEpoch { expected, actual } => message@
                    == "Non-sequential epoch sequence: expected "@ + text::number_text(
                    expected as nat,
                    10,
                ) + ", got "@ + text::number_text(actual as nat, 10),
                RotationError::InvalidPublicKey(epoch, text) => message@
                    == "Invalid public key at epoch "@ + text::number_text(epoch as nat, 10) + ": "@
                    + text@,
                RotationError::SignatureVerificationFailed(epoch, text) => message@
                    == "Signature verification failed at epoch "@ + text::number_text(
                    epoch as nat,
                    10,
                ) + ": "@ + text@,
                RotationError::IdentityConversionError(text) => message@
                    == "Identity conversion error: "@ + text@,
            },
    {
        match self {
            RotationError::EmptyChain => "Rotation chain is empty".to_owned(),
            RotationError::InvalidGenesisEpoch(epoch) => {
                let mut message = "Invalid genesis record epoch: ".to_owned();
                text::push_number(&mut message, *epoch as u64, 10);
                message.append(" (expected 0)");
                message
            },
            RotationError::NonSequentialEpoch { expected, actual } => {
                let mut message = "Non-sequential epoch sequence: expected ".to_owned();
                text::push_number(&mut message, *expected as u64, 10);
                message.append(", got ");
                text::push_number(&mut message, *actual as u64, 10);
                message
            },
            RotationError::InvalidPublicKey(epoch, text) => {
                let mut message = "Invalid public key at epoch ".to_owned();
                text::push_number(&mut message, *epoch as u64, 10);
                message.append(": ");
                message.append(text);
                message
            },
            RotationError::SignatureVerificationFailed(epoch, text) => {
                let mut message = "Signature verification failed at epoch ".to_owned();
                text::push_number(&mut message, *epoch as u64, 10);
                message.append(": ");
                message.append(text);
                message
            },
            RotationError::IdentityConversionError(text) => {
                "Identity conversion error: ".to_owned().concat(text)
            },
        }
    }
}

/// The public key that `did_key` names.
pub fn did_key_to_bytes(did_key: &str) -> (result: Result<[u8; 32], RotationError>)
    ensures
        result matches Ok(pubkey) ==> did_key::did_key_outcome(did_key@) == Ok::<
            Seq<u8>,
            Seq<char>,
        >(pubkey@),
        result matches Err(error) ==> {
            &&& did_key::did_key_outcome(did_key@) matches Err(message)
            &&& error@ == RotationFault::IdentityConversionError(message)
        },
{
    match did_key::parse_did_key(did_key) {
        Ok(pubkey) => Ok(pubkey),
        Err(message) => Err(RotationError::IdentityConversionError(message)),
    }
}

/// The 64 bytes of a signature, or what is wrong with their number.
pub fn signature_from_bytes(signature: &[u8]) -> (result: Result<[u8; 64], String>)
    ensures
        result is Ok <==> signature@.len() == 64,
        result matches Ok(array) ==> array@ == signature@,
        result matches Err(message) ==> message@ == "Expected 64 bytes for signature, got "@
            + text::decimal_text(signature@.len()),
{
    match bytes::exact_array(signature) {
        Some(array) => Ok(array),
        None => {
            let mut message = "Expected 64 bytes for signature, got ".to_owned();
            text::push_number(&mut message, signature.len() as u64, 10);
            Err(message)
        },
    }
}

/// The key of an epoch, signed by the key of the epoch before.
#[derive(Debug, Clone, PartialEq, Eq)]
pub struct RotationRecord {
    pub epoch: u32,
    pub new_pubkey: [u8; 32],
    pub signed_by_previous_key: [u8; 64],
    pub timestamp: u64,
}

/// What the key of the epoch before signs: epoch, key and time.
pub open spec fn signed_payload(epoch: u32, pubkey: Seq<u8>, timestamp: u64) -> Seq<u8> {
    bytes::big_endian(epoch as nat, 4) + pubkey + bytes::big_endian(timestamp as nat, 8)
}

/// What the key of the epoch before signs: epoch, key and time.
fn payload(epoch: u32, pubkey: &[u8; 32], timestamp: u64) -> (message: Vec<u8>)
    ensures
        message@ == signed_payload(epoch, pubkey@, timestamp),
{
    let mut message: Vec<u8> = Vec::new();
    bytes::push_big_endian(&mut message, epoch as u64, 4);
    bytes::append(&mut message, pubkey);
    bytes::push_big_endian(&mut message, timestamp, 8);
    assert(message@ =~= signed_payload(epoch, pubkey@, timestamp));
    message
}

/// A signature covers the whole record: what is signed for two records differs unless epoch, key
/// and time are the same.
pub proof fn payload_names_one_record(
    epoch: u32,
    pubkey: Seq<u8>,
    timestamp: u64,
    other_epoch: u32,
    other_pubkey: Seq<u8>,
    other_timestamp: u64,
)
    requires
        pubkey.len() == 32,
        other_pubkey.len() == 32,
        signed_payload(epoch, pubkey, timestamp) == signed_payload(
            other_epoch,
            other_pubkey,
            other_timestamp,
        ),
    ensures
        epoch == other_epoch,
        pubkey == other_pubkey,
        timestamp == other_timestamp,
{
    let a = signed_payload(epoch, pubkey, timestamp);
    let b = signed_payload(other_epoch, other_pubkey, other_timestamp);
    numeral::lemma_fixed_are_digits(epoch as nat, 256, 4);
    numeral::lemma_fixed_are_digits(other_epoch as nat, 256, 4);
    numeral::lemma_fixed_are_digits(timestamp as nat, 256, 8);
    numeral::lemma_fixed_are_digits(other_timestamp as nat, 256, 8);
    assert(bytes::big_endian(epoch as nat, 4) =~= a.subrange(0, 4));
    assert(bytes::big_endian(other_epoch as nat, 4) =~= b.subrange(0, 4));
    assert(pubkey =~= a.subrange(4, 36));
    assert(other_pubkey =~= b.subrange(4, 36));
    assert(bytes::big_endian(timestamp as nat, 8) =~= a.subrange(36, 44));
    assert(bytes::big_endian(other_timestamp as nat, 8) =~= b.subrange(36, 44));
    reveal(vstd::arithmetic::power::pow);
    reveal_with_fuel(vstd::arithmetic::power::pow, 9);
    bytes::lemma_big_endian_injective(epoch as nat, other_epoch as nat, 4);
    bytes::lemma_big_endian_injective(timestamp as nat, other_timestamp as nat, 8);
}

/// What is wrong with a record that follows another, if anything: first the epoch, then the key
/// before, then the signature.
pub open spec fn step_fault(before: RotationRecord, record: RotationRecord) -> Option<
    RotationFault,
> {
    if record.epoch != before.epoch + 1 {
        Some(
            RotationFault::NonSequentialEpoch {
                expected: (before.epoch + 1) as u32,
                actual: record.epoch,
            },
        )
    } else {
        match crypto::ed25519_key_fault(before.new_pubkey@) {
            Some(text) => Some(RotationFault::InvalidPublicKey(record.epoch, text)),
            None => match crypto::ed25519_fault(
                before.new_pubkey@,
                signed_payload(record.epoch, record.new_pubkey@, record.timestamp),
                record.signed_by_previous_key@,
            ) {
                Some(text) => Some(RotationFault::SignatureVerificationFailed(record.epoch, text)),
                None => None,
            },
        }
    }
}

/// What is wrong with the first faulty record from position `from` on, if any is faulty.
pub open spec fn first_fault(records: Seq<RotationRecord>, from: int) -> Option<RotationFault>
    decreases records.len() - from,
{
    if from >= records.len() {
        None
    } else {
        match step_fault(records[from - 1], records[from]) {
            Some(fault) => Some(fault),
            None => first_fault(records, from + 1),
        }
    }
}

/// What verifying a chain comes to.
pub open spec fn chain_fault(records: Seq<RotationRecord>) -> Option<RotationFault> {
    if records.len() == 0 {
        Some(RotationFault::EmptyChain)
    } else if records[0].epoch != 0 {
        Some(RotationFault::InvalidGenesisEpoch(records[0].epoch))
    } else {
        first_fault(records, 1)
    }
}

/// The records of an identity's keys, from epoch 0 on.
#[derive(Debug, Clone, PartialEq, Eq)]
pub struct RotationChain {
    records: Vec<RotationRecord>,
}

impl View for RotationChain {
    type V = Seq<RotationRecord>;

    closed spec fn view(&self) -> Seq<RotationRecord> {
        self.records@
    }
}

impl RotationChain {
    /// The chain of the records.
    pub fn from_records(records: Vec<RotationRecord>) -> (chain: Self)
        ensures
            chain@ == records@,
    {
        RotationChain { records }
    }

    /// The chain of an identity that has not rotated its key yet.
    pub fn genesis(identity: &LocalIdentity) -> (chain: Self)
        requires
            did_key::is_did_key(identity.did_key@),
        ensures
            chain@.len() == 1,
            chain@[0].epoch == 0,
            did_key::did_key_outcome(identity.did_key@) == Ok::<Seq<u8>, Seq<char>>(
                chain@[0].new_pubkey@,
            ),
            chain@[0].signed_by_previous_key@ == Seq::new(64, |i: int| 0u8),
            chain@[0].timestamp == identity.created_at,
            chain_fault(chain@) is None,
    {
        proof {
            did_key::lemma_did_key_outcome(identity.did_key@);
        }
        let new_pubkey: [u8; 32] = match did_key_to_bytes(&identity.did_key) {
            Ok(pubkey) => pubkey,
            Err(_) => vstd::pervasive::unreached(),
        };
        let signed_by_previous_key: [u8; 64] = [0u8; 64];
        assert(signed_by_previous_key@ =~= Seq::new(64, |i: int| 0u8));
        let mut records: Vec<RotationRecord> = Vec::new();
        records.push(
            RotationRecord {
                epoch: 0,
                new_pubkey,
                signed_by_previous_key,
                timestamp: identity.created_at,
            },
        );
        RotationChain { records }
    }

    /// Adds the record of the key of `seed`, signed by `previous_signing_key`, and leaves the
    /// key in `slot`. `now` is what the clock says.
    pub fn rotate_to(
        &mut self,
        previous_signing_key: &Ed25519Keypair,
        seed: &[u8; 32],
        now: Result<u64, String>,
        slot: &mut Option<Ed25519Keypair>,
    ) -> (result: Result<&RotationRecord, RotationError>)
        requires
            old(self)@.len() > 0 ==> old(self)@.last().epoch < u32::MAX,
        ensures
            result is Ok <==> old(self)@.len() > 0 && now is Ok,
            result matches Ok(record) ==> {
                &&& final(self)@ == old(self)@.push(*record)
                &&& record.epoch == old(self)@.last().epoch + 1
                &&& record.new_pubkey@ == crypto::ed25519_public(seed@)
                &&& now == Ok::<u64, String>(record.timestamp)
                &&& record.signed_by_previous_key@ == crypto::ed25519_signature(
                    previous_signing_key.seed.0.bytes@,
                    signed_payload(record.epoch, record.new_pubkey@, record.timestamp),
                )
                &&& *final(slot) matches Some(key) && key.seed.0.bytes == *seed
                &&& chain_fault(old(self)@) is None && old(self)@.last().new_pubkey@
                    == crypto::ed25519_public(previous_signing_key.seed.0.bytes@) ==> chain_fault(
                    final(self)@,
                ) is None
            },
            result matches Err(error) ==> {
                &&& final(self)@ == old(self)@
                &&& *final(slot) == *old(slot)
                &&& error@ == if old(self)@.len() == 0 {
                    RotationFault::EmptyChain
                } else {
                    RotationFault::IdentityConversionError(now->Err_0@)
                }
                &&& old(self)@.len() > 0 ==> error == RotationError::IdentityConversionError(
                    now->Err_0,
                )
            },
    {
        if self.records.len() == 0 {
            return Err(RotationError::EmptyChain);
        }
        let epoch: u32 = self.records[self.records.len() - 1].epoch + 1;
        let new_key = Ed25519Keypair::from_bytes(seed);
        let new_pubkey = new_key.verifying_key();
        let timestamp: u64 = match now {
            Ok(timestamp) => timestamp,
            Err(message) => return Err(RotationError::IdentityConversionError(message)),
        };
        let message = payload(epoch, &new_pubkey, timestamp);
        let signed_by_previous_key = previous_signing_key.sign(&message);
        let previous_pubkey = previous_signing_key.verifying_key();
        *slot = Some(new_key);
        let record = RotationRecord { epoch, new_pubkey, signed_by_previous_key, timestamp };
        let ghost before = self.records@;
        self.records.push(record);
        proof {
            assert(previous_pubkey@ == crypto::ed25519_public(previous_signing_key.seed.0.bytes@));
            if chain_fault(before) is None && before.last().new_pubkey@ == previous_pubkey@ {
                lemma_fault_free_push(before, record, 1);
            }
        }
        Ok(&self.records[self.records.len() - 1])
    }

    /// Makes a new key at random and adds its record, signed by `previous_signing_key`; leaves
    /// the key in `slot`. It fails on an empty chain and where the clock stands before the Unix
    /// epoch.
    pub fn rotate(
        &mut self,
        previous_signing_key: &Ed25519Keypair,
        slot: &mut Option<Ed25519Keypair>,
    ) -> (result: Result<&RotationRecord, RotationError>)
        requires
            old(self)@.len() > 0 ==> old(self)@.last().epoch < u32::MAX,
        ensures
            old(self)@.len() == 0 ==> result matches Err(RotationError::EmptyChain),
            result matches Ok(record) ==> {
                &&& final(self)@ == old(self)@.push(*record)
                &&& record.epoch == old(self)@.last().epoch + 1
                &&& record.signed_by_previous_key@ == crypto::ed25519_signature(
                    previous_signing_key.seed.0.bytes@,
                    signed_payload(record.epoch, record.new_pubkey@, record.timestamp),
                )
                &&& clock::clock_told(Ok::<u64, String>(record.timestamp))
                &&& *final(slot) matches Some(key) && entropy::os_gave(key.seed.0.bytes)
                    && record.new_pubkey@ == crypto::ed25519_public(key.seed.0.bytes@)
                &&& chain_fault(old(self)@) is None && old(self)@.last().new_pubkey@
                    == crypto::ed25519_public(previous_signing_key.seed.0.bytes@) ==> chain_fault(
                    final(self)@,
                ) is None
            },
            result matches Err(error) ==> {
                &&& final(self)@ == old(self)@
                &&& *final(slot) == *old(slot)
                &&& old(self)@.len() > 0 ==> (error matches RotationError::IdentityConversionError(
                    message,
                ) && clock::clock_told(Err::<u64, String>(message)))
            },
    {
        if self.records.len() == 0 {
            return Err(RotationError::EmptyChain);
        }
        let seed: [u8; 32] = entropy::os_draw();
        let now = clock::unix_time();
        self.rotate_to(previous_signing_key, &seed, now, slot)
    }

    /// Checks that the chain starts at epoch 0, that no epoch is left out, and that every record
    /// but the first is signed by the key of the one before. The first fault is told.
    pub fn verify_chain(&self) -> (result: Result<(), RotationError>)
        requires
            self@.len() <= 0x1_0000_0000,
        ensures
            result is Ok <==> chain_fault(self@) is None,
            result matches Err(error) ==> chain_fault(self@) == Some(error@),
    {
        if self.records.len() == 0 {
            return Err(RotationError::EmptyChain);
        }
        if self.records[0].epoch != 0 {
            return Err(RotationError::InvalidGenesisEpoch(self.records[0].epoch));
        }
        let mut i: usize = 1;
        while i < self.records.len()
            invariant
                1 <= i <= self.records@.len() <= 0x1_0000_0000,
                self.records@[i - 1].epoch == i - 1,
                chain_fault(self@) == first_fault(self.records@, i as int),
            decreases self.records@.len() - i,
        {
            let before = &self.records[i - 1];
            let record = &self.records[i];
            if record.epoch != before.epoch + 1 {
                return Err(
                    RotationError::NonSequentialEpoch {
                        expected: before.epoch + 1,
                        actual: record.epoch,
                    },
                );
            }
            match crypto::ed25519_check_key(&before.new_pubkey) {
                Ok(_) => {},
                Err(text) => return Err(RotationError::InvalidPublicKey(record.epoch, text)),
            }
            let message = payload(record.epoch, &record.new_pubkey, record.timestamp);
            match crypto::ed25519_verify(
                &before.new_pubkey,
                &message,
                &record.signed_by_previous_key,
            ) {
                Ok(_) => {},
                Err(text) => return Err(
                    RotationError::SignatureVerificationFailed(record.epoch, text),
                ),
            }
            i = i + 1;
        }
        Ok(())
    }

    /// The records.
    pub fn records(&self) -> (records: &[RotationRecord])
        ensures
            records@ == self@,
    {
        self.records.as_slice()
    }

    /// The records, to be changed.
    pub fn records_mut(&mut self) -> (records: &mut Vec<RotationRecord>)
        ensures
            records@ == old(self)@,
            final(self)@ == final(records)@,
    {
        &mut self.records
    }
}

proof fn lemma_fault_free_push(records: Seq<RotationRecord>, record: RotationRecord, from: int)
    requires
        1 <= from <= records.len(),
        first_fault(records, from) is None,
        step_fault(records.last(), record) is None,
    ensures
        first_fault(records.push(record), from) is None,
    decreases records.len() - from,
{
    let more = records.push(record);
    if from < records.len() {
        assert(more[from - 1] == records[from - 1] && more[from] == records[from]);
        lemma_fault_free_push(records, record, from + 1);
    } else {
        assert(more[from - 1] == records.last() && more[from] == record);
        assert(first_fault(more, from + 1) is None);
    }
}

/// In a chain that verifies, record `i` is that of epoch `i`, and its signature is that of the key
/// before over the whole record.
pub proof fn verified_chain_is_linked(records: Seq<RotationRecord>, i: int)
    requires
        chain_fault(records) is None,
        0 <= i < records.len(),
    ensures
        records[i].epoch == i,
        i > 0 ==> crypto::ed25519_key_fault(records[i - 1].new_pubkey@) is None,
        i > 0 ==> crypto::ed25519_fault(
            records[i - 1].new_pubkey@,
            signed_payload(records[i].epoch, records[i].new_pubkey@, records[i].timestamp),
            records[i].signed_by_previous_key@,
        ) is None,
{
    if i > 0 {
        lemma_step_is_sound(records, 1, i);
        lemma_epoch_is_position(records, i);
    }
}

proof fn lemma_step_is_sound(records: Seq<RotationRecord>, from: int, i: int)
    requires
        first_fault(records, from) is None,
        1 <= from <= i < records.len(),
    ensures
        step_fault(records[i - 1], records[i]) is None,
    decreases i - from,
{
    if from < i {
        lemma_step_is_sound(records, from + 1, i);
    }
}

proof fn lemma_epoch_is_position(records: Seq<RotationRecord>, i: int)
    requires
        chain_fault(records) is None,
        0 <= i < records.len(),
    ensures
        records[i].epoch == i,
    decreases i,
{
    if i > 0 {
        lemma_step_is_sound(records, 1, i);
        lemma_epoch_is_position(records, i - 1);
    }
}

/// Every chain that starts a chain that verifies verifies too.
pub proof fn verified_prefix(records: Seq<RotationRecord>, len: int)
    requires
        chain_fault(records) is None,
        0 < len <= records.len(),
    ensures
        chain_fault(records.take(len)) is None,
{
    lemma_prefix_fault_free(records, len, 1);
}

proof fn lemma_prefix_fault_free(records: Seq<RotationRecord>, len: int, from: int)
    requires
        first_fault(records, from) is None,
        1 <= from,
        0 < len <= records.len(),
    ensures
        first_fault(records.take(len), from) is None,
    decreases records.len() - from,
{
    if from < len {
        lemma_prefix_fault_free(records, len, from + 1);
    }
}

/// The first record that does not follow from the one before it is the one that is told of,
/// whatever comes after it.
pub proof fn first_faulty_record_is_told(
    records: Seq<RotationRecord>,
    i: int,
    fault: RotationFault,
)
    requires
        0 < i < records.len(),
        chain_fault(records.take(i)) is None,
        step_fault(records[i - 1], records[i]) == Some(fault),
    ensures
        chain_fault(records) == Some(fault),
{
    lemma_faults_before_come_first(records, i, 1);
}

proof fn lemma_faults_before_come_first(records: Seq<RotationRecord>, i: int, from: int)
    requires
        1 <= from <= i < records.len(),
        first_fault(records.take(i), from) is None,
    ensures
        first_fault(records, from) == first_fault(records, i),
    decreases i - from,
{
    if from < i {
        assert(records.take(i)[from - 1] == records[from - 1]);
        assert(records.take(i)[from] == records[from]);
        lemma_faults_before_come_first(records, i, from + 1);
    }
}

/// What is signed is 44 bytes: the epoch in 4, the whole key in 32, the time in 8, the most
/// significant byte first.
pub proof fn payload_holds_the_record(epoch: u32, pubkey: Seq<u8>, timestamp: u64)
    requires
        pubkey.len() == 32,
    ensures
        signed_payload(epoch, pubkey, timestamp).len() == 44,
        numeral::digits_value(
            signed_payload(epoch, pubkey, timestamp).subrange(0, 4).map_values(|b: u8| b as nat),
            256,
        ) == epoch,
        signed_payload(epoch, pubkey, timestamp).subrange(4, 36) == pubkey,
        numeral::digits_value(
            signed_payload(epoch, pubkey, timestamp).subrange(36, 44).map_values(|b: u8| b as nat),
            256,
        ) == timestamp,
{
    let message = signed_payload(epoch, pubkey, timestamp);
    reveal(vstd::arithmetic::power::pow);
    reveal_with_fuel(vstd::arithmetic::power::pow, 9);
    bytes::big_endian_is_the_number(epoch as nat, 4);
    bytes::big_endian_is_the_number(timestamp as nat, 8);
    assert(message.subrange(0, 4) =~= bytes::big_endian(epoch as nat, 4));
    assert(message.subrange(4, 36) =~= pubkey);
    assert(message.subrange(36, 44) =~= bytes::big_endian(timestamp as nat, 8));
}

/// A record follows another exactly if its epoch is the next one and the key of the other, which
/// is a public key, verifies its signature over its epoch, key and time. What is wrong is told in
/// that order.
pub proof fn record_follows_if_signed(before: RotationRecord, record: RotationRecord)
    ensures
        step_fault(before, record) is None <==> record.epoch == before.epoch + 1
            && crypto::ed25519_key_fault(before.new_pubkey@) is None && crypto::ed25519_fault(
            before.new_pubkey@,
            bytes::big_endian(record.epoch as nat, 4) + record.new_pubkey@ + bytes::big_endian(
                record.timestamp as nat,
                8,
            ),
            record.signed_by_previous_key@,
        ) is None,
        record.epoch != before.epoch + 1 ==> (step_fault(before, record) matches Some(
            RotationFault::NonSequentialEpoch { expected, actual },
        ) && actual == record.epoch && (before.epoch < u32::MAX ==> expected == before.epoch + 1)),
        record.epoch == before.epoch + 1 ==> (crypto::ed25519_key_fault(
            before.new_pubkey@,
        ) matches Some(text) ==> step_fault(before, record) == Some(
            RotationFault::InvalidPublicKey(record.epoch, text),
        )),
        record.epoch == before.epoch + 1 && crypto::ed25519_key_fault(before.new_pubkey@) is None
            ==> (crypto::ed25519_fault(
            before.new_pubkey@,
            bytes::big_endian(record.epoch as nat, 4) + record.new_pubkey@ + bytes::big_endian(
                record.timestamp as nat,
                8,
            ),
            record.signed_by_previous_key@,
        ) matches Some(text) ==> step_fault(before, record) == Some(
            RotationFault::SignatureVerificationFailed(record.epoch, text),
        )),
{
}

/// A chain verifies if it has a record, record `i` is that of epoch `i`, and every record but the
/// first is signed by the key of the one before.
pub proof fn linked_chain_verifies(records: Seq<RotationRecord>)
    requires
        records.len() > 0,
        forall|i: int| 0 <= i < records.len() ==> (#[trigger] records[i]).epoch == i,
        forall|i: int|
            #![trigger records[i]]
            0 < i < records.len() ==> crypto::ed25519_key_fault(records[i - 1].new_pubkey@) is None
                && crypto::ed25519_fault(
                records[i - 1].new_pubkey@,
                signed_payload(records[i].epoch, records[i].new_pubkey@, records[i].timestamp),
                records[i].signed_by_previous_key@,
            ) is None,
    ensures
        chain_fault(records) is None,
{
    lemma_linked_from(records, 1);
}

proof fn lemma_linked_from(records: Seq<RotationRecord>, from: int)
    requires
        1 <= from <= records.len(),
        forall|i: int| 0 <= i < records.len() ==> (#[trigger] records[i]).epoch == i,
        forall|i: int|
            #![trigger records[i]]
            0 < i < records.len() ==> crypto::ed25519_key_fault(records[i - 1].new_pubkey@) is None
                && crypto::ed25519_fault(
                records[i - 1].new_pubkey@,
                signed_payload(records[i].epoch, records[i].new_pubkey@, records[i].timestamp),
                records[i].signed_by_previous_key@,
            ) is None,
    ensures
        first_fault(records, from) is None,
    decreases records.len() - from,
{
    if from < records.len() {
        assert(records[from].epoch == from && records[from - 1].epoch == from - 1);
        lemma_linked_from(records, from + 1);
    }
}

/// A chain without records, or whose first record is not that of epoch 0, does not verify,
/// whatever follows.
pub proof fn chain_starts_at_epoch_zero(records: Seq<RotationRecord>)
    ensures
        records.len() == 0 ==> chain_fault(records) == Some(RotationFault::EmptyChain),
        records.len() > 0 && records[0].epoch != 0 ==> chain_fault(records) == Some(
            RotationFault::InvalidGenesisEpoch(records[0].epoch),
        ),
        records.len() == 1 && records[0].epoch == 0 ==> chain_fault(records) is None,
{
}

/// An error is told apart by its kind, its numbers and its text.
pub proof fn rotation_error_by_its_text(
    error: RotationError,
    first: u32,
    second: u32,
    message: String,
)
    ensures
        error == RotationError::EmptyChain ==> error@ == RotationFault::EmptyChain,
        error == RotationError::InvalidGenesisEpoch(first) ==> error@
            == RotationFault::InvalidGenesisEpoch(first),
        error == (RotationError::NonSequentialEpoch { expected: first, actual: second }) ==> error@
            == (RotationFault::NonSequentialEpoch { expected: first, actual: second }),
        error == RotationError::InvalidPublicKey(first, message) ==> error@
            == RotationFault::InvalidPublicKey(first, message@),
        error == RotationError::SignatureVerificationFailed(first, message) ==> error@
            == RotationFault::SignatureVerificationFailed(first, message@),
        error == RotationError::IdentityConversionError(message) ==> error@
            == RotationFault::IdentityConversionError(message@),
{
}

} // verus!
