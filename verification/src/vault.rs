//! The encrypted vault: keys derived from a PIN, sealed blocks, and the rows that hold them.
use crate::base58;
use crate::bytes;
use crate::clock;
use crate::crypto;
use crate::entropy;
use crate::key_bytes::KeyBytes;
use crate::logging::Scrubbed;
use crate::numeral;
use crate::text;
use vstd::prelude::*;

verus! {

/// Memory cost of the key derivation, in KiB.
pub const ARGON2_M_COST: u32 = 19456;

/// Passes of the key derivation.
pub const ARGON2_T_COST: u32 = 2;

/// Lanes of the key derivation.
pub const ARGON2_P_COST: u32 = 1;

/// What can go wrong in a cryptographic operation.
#[derive(Debug)]
pub enum CryptoError {
    Argon2(String),
    Aead(String),
    Other(String),
}

/// What can go wrong in the vault.
#[derive(Debug)]
pub enum VaultError {
    Database(String),
    Migration(String),
    InvalidPath,
    NotFound,
    Crypto(CryptoError),
    Other(String),
}

/// A `CryptoError` by the text that it holds.
pub enum CryptoFault {
    Argon2(Seq<char>),
    Aead(Seq<char>),
    Other(Seq<char>),
}

/// A `VaultError` by the text that it holds.
pub enum VaultFault {
    Database(Seq<char>),
    Migration(Seq<char>),
    InvalidPath,
    NotFound,
    Crypto(CryptoFault),
    Other(Seq<char>),
}

impl View for CryptoError {
    type V = CryptoFault;

    open spec fn view(&self) -> CryptoFault {
        match self {
            CryptoError::Argon2(text) => CryptoFault::Argon2(text@),
            CryptoError::Aead(text) => CryptoFault::Aead(text@),
            CryptoError::Other(text) => CryptoFault::Other(text@),
        }
    }
}

impl View for VaultError {
    type V = VaultFault;

    open spec fn view(&self) -> VaultFault {
        match self {
            VaultError::Database(text) => VaultFault::Database(text@),
            VaultError::Migration(text) => VaultFault::Migration(text@),
            VaultError::InvalidPath => VaultFault::InvalidPath,
            VaultError::NotFound => VaultFault::NotFound,
            VaultError::Crypto(error) => VaultFault::Crypto(error@),
            VaultError::Other(text) => VaultFault::Other(text@),
        }
    }
}

impl CryptoError {
    /// The error in words.
    pub fn message(&self) -> (message: String)
        ensures
            message@ == crypto_message(self@),
            match *self {
                CryptoError::Argon2(text) => message@ == "Argon2 error: "@ + text@,
                CryptoError::Aead(text) => message@ == "AEAD error: "@ + text@,
                CryptoError::Other(text) => message@ == "Cryptographic error: "@ + text@,
            },
    {
        match self {
            CryptoError::Argon2(text) => joined("Argon2 error: ", text),
            CryptoError::Aead(text) => joined("AEAD error: ", text),
            CryptoError::Other(text) => joined("Cryptographic error: ", text),
        }
    }
}

impl VaultError {
    /// The error in words.
    pub fn message(&self) -> (message: String)
        ensures
            message@ == vault_message(self@),
            match *self {
                VaultError::Database(text) => message@ == "Database error: "@ + text@,
                VaultError::Migration(text) => message@ == "Migration error: "@ + text@,
                VaultError::InvalidPath => message@ == "Invalid database path"@,
                VaultError::NotFound => message@ == "Credential not found"@,
                VaultError::Crypto(error) => message@ == "Cryptographic error: "@ + crypto_message(
                    error@,
                ),
                VaultError::Other(text) => message@ == "Vault error: "@ + text@,
            },
    {
        match self {
            VaultError::Database(text) => joined("Database error: ", text),
            VaultError::Migration(text) => joined("Migration error: ", text),
            VaultError::InvalidPath => "Invalid database path".to_owned(),
            VaultError::NotFound => "Credential not found".to_owned(),
            VaultError::Crypto(error) => joined("Cryptographic error: ", &error.message()),
            VaultError::Other(text) => joined("Vault error: ", text),
        }
    }
}

/// The words for a `CryptoError`.
pub open spec fn crypto_message(fault: CryptoFault) -> Seq<char> {
    match fault {
        CryptoFault::Argon2(text) => "Argon2 error: "@ + text,
        CryptoFault::Aead(text) => "AEAD error: "@ + text,
        CryptoFault::Other(text) => "Cryptographic error: "@ + text,
    }
}

/// The words for a `VaultError`.
pub open spec fn vault_message(fault: VaultFault) -> Seq<char> {
    match fault {
        VaultFault::Database(text) => "Database error: "@ + text,
        VaultFault::Migration(text) => "Migration error: "@ + text,
        VaultFault::InvalidPath => "Invalid database path"@,
        VaultFault::NotFound => "Credential not found"@,
        VaultFault::Crypto(error) => "Cryptographic error: "@ + crypto_message(error),
        VaultFault::Other(text) => "Vault error: "@ + text,
    }
}

fn joined(first: &str, second: &str) -> (text: String)
    ensures
        text@ == first@ + second@,
{
    first.to_owned().concat(second)
}

impl From<CryptoError> for VaultError {
    fn from(err: CryptoError) -> (error: Self)
        ensures
            error == VaultError::Crypto(err),
    {
        VaultError::Crypto(err)
    }
}

impl vstd::std_specs::convert::FromSpecImpl<CryptoError> for VaultError {
    open spec fn obeys_from_spec() -> bool {
        true
    }

    open spec fn from_spec(err: CryptoError) -> Self {
        VaultError::Crypto(err)
    }
}

/// A result by what it holds, with an error by its text.
pub open spec fn key_outcome(result: Result<[u8; 32], VaultError>) -> Result<Seq<u8>, VaultFault> {
    match result {
        Ok(key) => Ok(key@),
        Err(error) => Err(error@),
    }
}

/// A result by what it holds, with an error by its text.
pub open spec fn data_outcome(result: Result<Vec<u8>, VaultError>) -> Result<Seq<u8>, VaultFault> {
    match result {
        Ok(data) => Ok(data@),
        Err(error) => Err(error@),
    }
}

/// What the AEAD says of everything that it refuses.
pub open spec fn aead_fault() -> CryptoFault {
    CryptoFault::Aead("ring::error::Unspecified"@)
}

/// The key that a PIN and a salt give.
pub open spec fn master_key(pin: Seq<u8>, salt: Seq<u8>) -> Seq<u8> {
    crypto::argon2id_key(pin, salt, ARGON2_M_COST, ARGON2_T_COST, ARGON2_P_COST)
}

/// The longest PIN from which a key can be derived.
pub open spec fn pin_limit() -> nat {
    0xffff_ffff
}

/// What deriving a key from a PIN that is too long comes to.
pub open spec fn pin_fault() -> CryptoFault {
    CryptoFault::Argon2("password is too long"@)
}

/// Derives the master key from a PIN with Argon2id.
pub fn derive_master_key(pin: &[u8], salt: &[u8; 16]) -> (result: Result<[u8; 32], CryptoError>)
    ensures
        result is Ok <==> pin@.len() <= pin_limit(),
        result matches Ok(key) ==> key@ == master_key(pin@, salt@),
        result matches Err(error) ==> error@ == pin_fault(),
        result is Ok <==> pin@.len() <= 0xffff_ffff,
        result matches Ok(key) ==> key@ == crypto::argon2id_key(pin@, salt@, 19456, 2, 1),
        result matches Err(error) ==> (error matches CryptoError::Argon2(message) && message@
            == "password is too long"@),
{
    match crypto::argon2id(pin, salt, ARGON2_M_COST, ARGON2_T_COST, ARGON2_P_COST) {
        Ok(key) => Ok(key),
        Err(message) => Err(CryptoError::Argon2(message)),
    }
}

/// The 64 bytes that the master key is stretched to.
pub open spec fn stretched(master: Seq<u8>) -> Seq<u8> {
    crypto::hkdf_sha256(master, bytes::utf8("chaperone-vault-stretch"@), 64)
}

/// The key that seals the vault key.
pub open spec fn encryption_key(master: Seq<u8>) -> Seq<u8> {
    stretched(master).subrange(0, 32)
}

/// The key that seals the check block.
pub open spec fn check_key(master: Seq<u8>) -> Seq<u8> {
    stretched(master).subrange(32, 64)
}

/// Stretches the master key to an encryption key and a check key.
pub fn stretch_key(master_key: &[u8; 32]) -> (keys: ([u8; 32], [u8; 32]))
    ensures
        keys.0@ == encryption_key(master_key@),
        keys.1@ == check_key(master_key@),
        keys.0@ + keys.1@ == crypto::hkdf_sha256(
            master_key@,
            bytes::utf8("chaperone-vault-stretch"@),
            64,
        ),
{
    let okm: [u8; 64] = crypto::hkdf(master_key, "chaperone-vault-stretch".as_bytes());
    assert(okm@.subrange(0, 32) + okm@.subrange(32, 64) =~= okm@);
    (bytes::array_at(&okm, 0), bytes::array_at(&okm, 32))
}

/// Seals `plaintext` under the key and the nonce.
pub fn seal_block(key_bytes: &[u8; 32], nonce: &[u8; 12], plaintext: &[u8]) -> (result: Result<
    Vec<u8>,
    CryptoError,
>)
    ensures
        result is Ok <==> plaintext@.len() <= crypto::SEAL_LIMIT,
        result matches Ok(ciphertext) ==> {
            &&& ciphertext@ == crypto::sealed(key_bytes@, nonce@, plaintext@)
            &&& ciphertext@.len() == plaintext@.len() + 16
            &&& crypto::opened(key_bytes@, nonce@, ciphertext@) == Some(plaintext@)
        },
        result matches Err(error) ==> error@ == aead_fault(),
{
    match crypto::seal(key_bytes, nonce, plaintext) {
        Ok(ciphertext) => Ok(ciphertext),
        Err(message) => Err(CryptoError::Aead(message)),
    }
}

/// The system's random source gave this nonce.
pub open spec fn drawn_nonce(nonce: Seq<u8>) -> bool {
    exists|drawn: [u8; 12]| #[trigger]
        entropy::system_gave(Ok::<[u8; 12], String>(drawn)) && nonce == drawn@
}

/// Seals `plaintext` under the key and a fresh random nonce, and gives the ciphertext and the
/// nonce. It fails on a plaintext that is too long, and where the system has no random bytes.
pub fn encrypt_block(key_bytes: &[u8; 32], plaintext: &[u8]) -> (result: Result<
    (Vec<u8>, [u8; 12]),
    CryptoError,
>)
    ensures
        plaintext@.len() > crypto::SEAL_LIMIT ==> result is Err,
        result matches Ok((ciphertext, nonce)) ==> {
            &&& ciphertext@ == crypto::sealed(key_bytes@, nonce@, plaintext@)
            &&& ciphertext@.len() == plaintext@.len() + 16
            &&& crypto::opened(key_bytes@, nonce@, ciphertext@) == Some(plaintext@)
            &&& entropy::system_gave(Ok::<[u8; 12], String>(nonce))
        },
        result matches Err(error) ==> error@ == aead_fault(),
        result is Err && plaintext@.len() <= crypto::SEAL_LIMIT ==> entropy::system_failed::<12>(),
{
    let nonce: [u8; 12] = match entropy::system_draw() {
        Ok(nonce) => nonce,
        Err(message) => return Err(CryptoError::Aead(message)),
    };
    match seal_block(key_bytes, &nonce, plaintext) {
        Ok(ciphertext) => Ok((ciphertext, nonce)),
        Err(error) => Err(error),
    }
}

/// Opens a ciphertext under the key and the nonce.
pub fn decrypt_block(key_bytes: &[u8; 32], ciphertext: &[u8], nonce_bytes: &[u8; 12]) -> (result:
    Result<Vec<u8>, CryptoError>)
    ensures
        result is Ok <==> crypto::opened(key_bytes@, nonce_bytes@, ciphertext@) is Some,
        result matches Ok(plaintext) ==> {
            &&& crypto::opened(key_bytes@, nonce_bytes@, ciphertext@) == Some(plaintext@)
            &&& ciphertext@.len() == plaintext@.len() + 16
            &&& ciphertext@ == crypto::sealed(key_bytes@, nonce_bytes@, plaintext@)
        },
        result matches Err(error) ==> error@ == aead_fault(),
{
    match crypto::open(key_bytes, nonce_bytes, ciphertext) {
        Ok(plaintext) => Ok(plaintext),
        Err(message) => Err(CryptoError::Aead(message)),
    }
}

/// Seals the vault key under the encryption key.
pub fn encrypt_protected_vault_key(
    stretched_key: &([u8; 32], [u8; 32]),
    vault_key: &[u8; 32],
) -> (result: Result<(Vec<u8>, [u8; 12]), CryptoError>)
    ensures
        result matches Ok((ciphertext, nonce)) ==> {
            &&& ciphertext@ == crypto::sealed(stretched_key.0@, nonce@, vault_key@)
            &&& ciphertext@.len() == 48
            &&& crypto::opened(stretched_key.0@, nonce@, ciphertext@) == Some(vault_key@)
            &&& entropy::system_gave(Ok::<[u8; 12], String>(nonce))
        },
        result matches Err(error) ==> error@ == aead_fault(),
        result is Err ==> entropy::system_failed::<12>(),
{
    encrypt_block(&stretched_key.0, vault_key)
}

/// What opening the sealed vault key comes to.
pub open spec fn protected_key_outcome(key: Seq<u8>, ciphertext: Seq<u8>, nonce: Seq<u8>) -> Result<
    Seq<u8>,
    CryptoFault,
> {
    match crypto::opened(key, nonce, ciphertext) {
        None => Err(aead_fault()),
        Some(plaintext) => if plaintext.len() == 32 {
            Ok(plaintext)
        } else {
            Err(CryptoFault::Other("Decrypted vault key has invalid length"@))
        },
    }
}

/// Opens the sealed vault key with the encryption key.
pub fn decrypt_protected_vault_key(
    stretched_key: &([u8; 32], [u8; 32]),
    ciphertext: &[u8],
    nonce_bytes: &[u8; 12],
) -> (result: Result<[u8; 32], CryptoError>)
    ensures
        result matches Ok(key) ==> protected_key_outcome(
            stretched_key.0@,
            ciphertext@,
            nonce_bytes@,
        ) == Ok::<Seq<u8>, CryptoFault>(key@),
        result matches Err(error) ==> protected_key_outcome(
            stretched_key.0@,
            ciphertext@,
            nonce_bytes@,
        ) == Err::<Seq<u8>, CryptoFault>(error@),
{
    let decrypted = match decrypt_block(&stretched_key.0, ciphertext, nonce_bytes) {
        Ok(decrypted) => decrypted,
        Err(error) => return Err(error),
    };
    match bytes::exact_array(&decrypted) {
        Some(vault_key) => Ok(vault_key),
        None => Err(CryptoError::Other("Decrypted vault key has invalid length".to_owned())),
    }
}

/// The text that every vault seals under its check key.
pub open spec fn check_block() -> Seq<u8> {
    bytes::utf8("chaperone-vault-check-bytes-3210"@)
}

/// The row that says how a vault is locked.
#[derive(Debug)]
pub struct VaultHeader {
    pub schema_version: i64,
    pub kdf_algo: String,
    pub kdf_params: String,
    pub sealed_key: Vec<u8>,
    pub sealed_check: Vec<u8>,
}

/// The key derivation's costs and salt as the header holds them.
pub open spec fn kdf_text(salt: Seq<u8>) -> Seq<char> {
    "m="@ + text::decimal_text(ARGON2_M_COST as nat) + ",t="@ + text::decimal_text(
        ARGON2_T_COST as nat,
    ) + ",p="@ + text::decimal_text(ARGON2_P_COST as nat) + ",salt="@ + base58::base58_text(salt)
}

/// The value of the first of `parts` that reads `key=value`.
pub open spec fn first_value(parts: Seq<Seq<char>>, key: Seq<char>) -> Option<Seq<char>>
    decreases parts.len(),
{
    if parts.len() == 0 {
        None
    } else {
        let kv = text::pieces(parts[0], '=');
        if kv.len() == 2 && kv[0] == key {
            Some(kv[1])
        } else {
            first_value(parts.skip(1), key)
        }
    }
}

/// The value of a parameter in the comma-separated `params`.
pub open spec fn kdf_param(params: Seq<char>, key: Seq<char>) -> Option<Seq<char>> {
    first_value(text::pieces(params, ','), key)
}

/// The value of the first parameter of that name in the comma-separated `params`.
pub fn parse_kdf_param(params: &str, key: &str) -> (result: Result<String, VaultError>)
    ensures
        result is Ok <==> kdf_param(params@, key@) is Some,
        result matches Ok(value) ==> kdf_param(params@, key@) == Some(value@),
        result matches Err(error) ==> error@ == VaultFault::Other("Missing parameter: "@ + key@),
{
    let parts = text::split(params, ',');
    let ghost all = text::pieces(params@, ',');
    let mut i: usize = 0;
    assert(all.skip(0) =~= all);
    while i < parts.len()
        invariant
            i <= parts@.len(),
            all == text::pieces(params@, ','),
            text::contents(parts@) == all,
            first_value(all.skip(i as int), key@) == kdf_param(params@, key@),
        decreases parts@.len() - i,
    {
        let mut kv = text::split(&parts[i], '=');
        assert(all[i as int] == parts@[i as int]@);
        assert(all.skip(i as int).skip(1) =~= all.skip(i + 1));
        let ghost found = text::contents(kv@);
        if kv.len() == 2 && text::same_text(&kv[0], key) {
            assert(found[0] == kv@[0]@ && found[1] == kv@[1]@);
            return Ok(kv.swap_remove(1));
        }
        assert(kv@.len() == 2 ==> found[0] == kv@[0]@);
        i = i + 1;
    }
    Err(VaultError::Other(joined("Missing parameter: ", key)))
}

/// The parameters that a header holds give the salt back.
pub proof fn kdf_text_holds_the_salt(salt: Seq<u8>)
    ensures
        kdf_param(kdf_text(salt), "salt"@) == Some(base58::base58_text(salt)),
{
    let m = text::decimal_text(ARGON2_M_COST as nat);
    let t = text::decimal_text(ARGON2_T_COST as nat);
    let p = text::decimal_text(ARGON2_P_COST as nat);
    let s = base58::base58_text(salt);
    text::lemma_decimal_round_trip(ARGON2_M_COST as nat);
    text::lemma_decimal_round_trip(ARGON2_T_COST as nat);
    text::lemma_decimal_round_trip(ARGON2_P_COST as nat);
    base58::base58_round_trip(salt);
    reveal_strlit("m=");
    reveal_strlit(",t=");
    reveal_strlit(",p=");
    reveal_strlit(",salt=");
    reveal_strlit("salt");
    let m_part = seq!['m', '='] + m;
    let t_part = seq!['t', '='] + t;
    let p_part = seq!['p', '='] + p;
    let s_part = seq!['s', 'a', 'l', 't', '='] + s;
    let after_p = s_part;
    let after_t = p_part.push(',') + after_p;
    let after_m = t_part.push(',') + after_t;
    assert(kdf_text(salt) =~= m_part.push(',') + after_m);
    lemma_no_separator(seq!['m', '='], m, ',');
    lemma_no_separator(seq!['t', '='], t, ',');
    lemma_no_separator(seq!['p', '='], p, ',');
    lemma_no_separator(seq!['s', 'a', 'l', 't', '='], s, ',');
    lemma_no_separator(Seq::empty(), m, '=');
    lemma_no_separator(Seq::empty(), t, '=');
    lemma_no_separator(Seq::empty(), p, '=');
    lemma_no_separator(Seq::empty(), s, '=');
    text::lemma_first_piece(m_part, ',', after_m);
    text::lemma_first_piece(t_part, ',', after_t);
    text::lemma_first_piece(p_part, ',', after_p);
    text::lemma_single_piece(s_part, ',');
    let parts = text::pieces(kdf_text(salt), ',');
    assert(parts =~= seq![m_part, t_part, p_part, s_part]);
    lemma_key_value(seq!['m'], m);
    lemma_key_value(seq!['t'], t);
    lemma_key_value(seq!['p'], p);
    lemma_key_value("salt"@, s);
    assert(seq!['m'].push('=') =~= seq!['m', '=']);
    assert(seq!['t'].push('=') =~= seq!['t', '=']);
    assert(seq!['p'].push('=') =~= seq!['p', '=']);
    assert("salt"@.push('=') =~= seq!['s', 'a', 'l', 't', '=']);
    assert("salt"@.len() == 4);
    assert(parts.skip(1) =~= seq![t_part, p_part, s_part]);
    assert(parts.skip(1).skip(1) =~= seq![p_part, s_part]);
    assert(parts.skip(1).skip(1).skip(1) =~= seq![s_part]);
    reveal_with_fuel(first_value, 5);
}

proof fn lemma_no_separator(first: Seq<char>, second: Seq<char>, separator: char)
    requires
        separator == ',' || separator == '=',
        !first.contains(separator),
        base58::is_base58(second) || forall|c: char| #[trigger] second.contains(c) ==> '0' <= c
            <= '9',
    ensures
        !(first + second).contains(separator),
        !second.contains(separator),
{
    if second.contains(separator) {
        let i = choose|i: int| 0 <= i < second.len() && second[i] == separator;
        assert(base58::base58_digit(separator) is None);
    }
    if (first + second).contains(separator) {
        let i = choose|i: int| 0 <= i < (first + second).len() && (first + second)[i] == separator;
        if i < first.len() {
            assert(first[i] == separator);
        } else {
            assert(second[i - first.len()] == separator);
        }
    }
}

proof fn lemma_key_value(key: Seq<char>, value: Seq<char>)
    requires
        !key.contains('='),
        !value.contains('='),
    ensures
        text::pieces(key.push('=') + value, '=') == seq![key, value],
{
    text::lemma_first_piece(key, '=', value);
    text::lemma_single_piece(value, '=');
    assert(seq![key] + seq![value] =~= seq![key, value]);
}

/// The header holds `key`, locked by `pin` and `salt`: each sealed block stands behind its
/// nonce.
pub open spec fn locks(header: VaultHeader, pin: Seq<u8>, salt: Seq<u8>, key: Seq<u8>) -> bool {
    let master = master_key(pin, salt);
    let protected = header.sealed_key@;
    let check = header.sealed_check@;
    &&& salt.len() == 16
    &&& header.schema_version == 1
    &&& header.kdf_algo@ == "argon2id"@
    &&& header.kdf_params@ == kdf_text(salt)
    &&& protected.len() == 60
    &&& protected.skip(12) == crypto::sealed(encryption_key(master), protected.take(12), key)
    &&& check.len() == 60
    &&& check.skip(12) == crypto::sealed(check_key(master), check.take(12), check_block())
}

/// Puts a header together from the salt and the two sealed blocks with their nonces.
pub fn assemble_header(
    salt: &[u8; 16],
    protected: &(Vec<u8>, [u8; 12]),
    check: &(Vec<u8>, [u8; 12]),
) -> (header: VaultHeader)
    ensures
        header.schema_version == 1,
        header.kdf_algo@ == "argon2id"@,
        header.kdf_params@ == kdf_text(salt@),
        header.kdf_params@ == "m=19456,t=2,p=1,salt="@ + base58::base58_text(salt@),
        header.sealed_key@ == protected.1@ + protected.0@,
        header.sealed_check@ == check.1@ + check.0@,
{
    let mut sealed_key = bytes::copy(&protected.1);
    bytes::append(&mut sealed_key, &protected.0);
    let mut sealed_check = bytes::copy(&check.1);
    bytes::append(&mut sealed_check, &check.0);
    let mut kdf_params = "m=".to_owned();
    text::push_number(&mut kdf_params, ARGON2_M_COST as u64, 10);
    kdf_params.append(",t=");
    text::push_number(&mut kdf_params, ARGON2_T_COST as u64, 10);
    kdf_params.append(",p=");
    text::push_number(&mut kdf_params, ARGON2_P_COST as u64, 10);
    kdf_params.append(",salt=");
    kdf_params.append(&base58::base58_encode(salt));
    proof {
        header_tells_the_costs(salt@);
    }
    VaultHeader {
        schema_version: 1,
        kdf_algo: "argon2id".to_owned(),
        kdf_params,
        sealed_key,
        sealed_check,
    }
}

/// What unlocking a header with a PIN comes to. What is wrong is told in this order: the salt,
/// the PIN's length, the check block, the PIN, the sealed key.
pub open spec fn unlock_outcome(
    kdf_params: Seq<char>,
    protected: Seq<u8>,
    check: Seq<u8>,
    pin: Seq<u8>,
) -> Result<Seq<u8>, VaultFault> {
    match kdf_param(kdf_params, "salt"@) {
        None => Err(VaultFault::Other("Missing parameter: "@ + "salt"@)),
        Some(salt_text) => {
            let salt = base58::base58_bytes(salt_text);
            let master = master_key(pin, salt);
            if !base58::is_base58(salt_text) {
                Err(VaultFault::Other(base58::base58_complaint(salt_text)))
            } else if salt.len() != 16 {
                Err(VaultFault::Other("Invalid salt length in db"@))
            } else if pin.len() > pin_limit() {
                Err(VaultFault::Crypto(pin_fault()))
            } else if check.len() < 12 {
                Err(VaultFault::Other("Invalid check block length"@))
            } else if crypto::opened(check_key(master), check.take(12), check.skip(12)) != Some(
                check_block(),
            ) {
                Err(VaultFault::Crypto(CryptoFault::Other("Incorrect PIN"@)))
            } else if protected.len() < 12 {
                Err(VaultFault::Other("Invalid protected key length"@))
            } else {
                match protected_key_outcome(
                    encryption_key(master),
                    protected.skip(12),
                    protected.take(12),
                ) {
                    Ok(key) => Ok(key),
                    Err(fault) => Err(VaultFault::Crypto(fault)),
                }
            }
        },
    }
}

impl VaultHeader {
    /// What unlocking the header with a PIN comes to.
    pub open spec fn outcome(self, pin: Seq<u8>) -> Result<Seq<u8>, VaultFault> {
        unlock_outcome(
            self.kdf_params@,
            self.sealed_key@,
            self.sealed_check@,
            pin,
        )
    }

    /// The vault key, if the PIN unlocks the header.
    pub fn unlock_key(&self, pin: &[u8]) -> (result: Result<[u8; 32], VaultError>)
        ensures
            key_outcome(result) == self.outcome(pin@),
    {
        let salt_b58 = match parse_kdf_param(&self.kdf_params, "salt") {
            Ok(value) => value,
            Err(error) => return Err(error),
        };
        let salt_vec = match base58::base58_decode(&salt_b58) {
            Ok(decoded) => decoded,
            Err(message) => return Err(VaultError::Other(message)),
        };
        let salt: [u8; 16] = match bytes::exact_array(&salt_vec) {
            Some(salt) => salt,
            None => return Err(VaultError::Other("Invalid salt length in db".to_owned())),
        };
        let master_key = match derive_master_key(pin, &salt) {
            Ok(key) => key,
            Err(error) => return Err(VaultError::Crypto(error)),
        };
        let stretched = stretch_key(&master_key);

        let (check_nonce, check_ct) = match nonce_and_rest(&self.sealed_check) {
            Some(parts) => parts,
            None => return Err(VaultError::Other("Invalid check block length".to_owned())),
        };
        let opens = match decrypt_block(&stretched.1, check_ct, &check_nonce) {
            Ok(check_bytes) => bytes::same(
                &check_bytes,
                "chaperone-vault-check-bytes-3210".as_bytes(),
            ),
            Err(_) => false,
        };
        if !opens {
            return Err(VaultError::Crypto(CryptoError::Other("Incorrect PIN".to_owned())));
        }
        let (vault_nonce, vault_ct) = match nonce_and_rest(&self.sealed_key) {
            Some(parts) => parts,
            None => return Err(VaultError::Other("Invalid protected key length".to_owned())),
        };
        match decrypt_protected_vault_key(&stretched, vault_ct, &vault_nonce) {
            Ok(key) => Ok(key),
            Err(error) => Err(VaultError::Crypto(error)),
        }
    }
}

/// The nonce that a sealed block starts with, and what follows it.
fn nonce_and_rest(block: &Vec<u8>) -> (parts: Option<([u8; 12], &[u8])>)
    ensures
        parts is Some <==> block@.len() >= 12,
        parts matches Some((nonce, rest)) ==> nonce@ == block@.take(12) && rest@ == block@.skip(12),
{
    if block.len() < 12 {
        None
    } else {
        let nonce: [u8; 12] = bytes::array_at(block, 0);
        let rest = vstd::slice::slice_subrange(block.as_slice(), 12, block.len());
        Some((nonce, rest))
    }
}

/// A header that locks a key opens with the PIN that locked it, and gives the key: so long as
/// the two blocks open to what was sealed in them.
proof fn lemma_locked_header_opens(header: VaultHeader, pin: Seq<u8>, salt: Seq<u8>, key: Seq<u8>)
    requires
        locks(header, pin, salt, key),
        pin.len() <= pin_limit(),
        key.len() == 32,
        crypto::opened(
            encryption_key(master_key(pin, salt)),
            header.sealed_key@.take(12),
            header.sealed_key@.skip(12),
        ) == Some(key),
        crypto::opened(
            check_key(master_key(pin, salt)),
            header.sealed_check@.take(12),
            header.sealed_check@.skip(12),
        ) == Some(check_block()),
    ensures
        header.outcome(pin) == Ok::<Seq<u8>, VaultFault>(key),
{
    kdf_text_holds_the_salt(salt);
    base58::base58_round_trip(salt);
}

/// A stored credential: a sealed text with its nonce.
#[derive(Debug)]
pub struct Credential {
    pub id: Vec<u8>,
    pub ciphertext: Vec<u8>,
    pub nonce: Vec<u8>,
    pub created_at: i64,
}

/// What is stored under an id.
pub struct SealedRow {
    pub ciphertext: Seq<u8>,
    pub nonce: Seq<u8>,
    pub created_at: i64,
}

impl View for Credential {
    type V = SealedRow;

    open spec fn view(&self) -> SealedRow {
        SealedRow {
            ciphertext: self.ciphertext@,
            nonce: self.nonce@,
            created_at: self.created_at,
        }
    }
}

/// The rows of a vault: its headers, its credentials and the state of the backup.
#[derive(Debug)]
pub struct VaultStore {
    pub headers: Vec<VaultHeader>,
    pub rows: Vec<Credential>,
    pub backup: Backup,
}

/// What a vault knows of the user's secret key: the hash by which it can be checked, and whether
/// the user has shown to have written it down.
#[derive(Debug, Clone, Copy)]
pub struct Backup {
    pub verifier: Option<[u8; 32]>,
    pub confirmed: bool,
}

/// No id occurs twice.
pub open spec fn distinct_ids(rows: Seq<Credential>) -> bool {
    forall|i: int, j: int|
        0 <= i < j < rows.len() ==> (#[trigger] rows[i]).id@ != (#[trigger] rows[j]).id@
}

/// Row `i` has the id.
pub open spec fn row_has_id(rows: Seq<Credential>, i: int, id: Seq<u8>) -> bool {
    0 <= i < rows.len() && rows[i].id@ == id
}

/// What the rows hold, by id.
pub open spec fn rows_by_id(rows: Seq<Credential>) -> Map<Seq<u8>, SealedRow> {
    Map::new(
        |id: Seq<u8>| exists|i: int| row_has_id(rows, i, id),
        |id: Seq<u8>| rows[choose|i: int| row_has_id(rows, i, id)]@,
    )
}

impl View for VaultStore {
    type V = Map<Seq<u8>, SealedRow>;

    /// The credentials by id.
    open spec fn view(&self) -> Map<Seq<u8>, SealedRow> {
        rows_by_id(self.rows@)
    }
}

proof fn lemma_row_by_id(rows: Seq<Credential>, i: int, id: Seq<u8>)
    requires
        distinct_ids(rows),
        row_has_id(rows, i, id),
    ensures
        rows_by_id(rows).dom().contains(id),
        rows_by_id(rows)[id] == rows[i]@,
{
    let j = choose|j: int| row_has_id(rows, j, id);
    assert(row_has_id(rows, j, id));
    assert(i == j);
}

proof fn lemma_row_pushed(rows: Seq<Credential>, row: Credential)
    requires
        distinct_ids(rows),
        !rows_by_id(rows).dom().contains(row.id@),
    ensures
        distinct_ids(rows.push(row)),
        rows_by_id(rows.push(row)) == rows_by_id(rows).insert(row.id@, row@),
{
    let after = rows.push(row);
    assert forall|i: int, j: int| 0 <= i < j < after.len() implies (#[trigger] after[i]).id@ != (
    #[trigger] after[j]).id@ by {
        if j == rows.len() {
            assert(!row_has_id(rows, i, row.id@));
        }
    }
    let found = rows_by_id(after);
    let wanted = rows_by_id(rows).insert(row.id@, row@);
    assert forall|id: Seq<u8>|
        #![trigger found.dom().contains(id)]
        #![trigger wanted.dom().contains(id)]
        #![trigger found[id]]
        found.dom().contains(id) == wanted.dom().contains(id) && (found.dom().contains(id)
            ==> found[id] == wanted[id]) by {
        if id == row.id@ {
            assert(row_has_id(after, rows.len() as int, id));
            lemma_row_by_id(after, rows.len() as int, id);
        } else {
            if exists|i: int| row_has_id(after, i, id) {
                let i = choose|i: int| row_has_id(after, i, id);
                assert(row_has_id(rows, i, id));
                lemma_row_by_id(after, i, id);
                lemma_row_by_id(rows, i, id);
            }
            if exists|i: int| row_has_id(rows, i, id) {
                let i = choose|i: int| row_has_id(rows, i, id);
                assert(row_has_id(after, i, id));
            }
        }
    }
    assert(found =~= wanted);
}

proof fn lemma_row_replaced(rows: Seq<Credential>, at: int, row: Credential)
    requires
        distinct_ids(rows),
        row_has_id(rows, at, row.id@),
    ensures
        distinct_ids(rows.update(at, row)),
        rows_by_id(rows.update(at, row)) == rows_by_id(rows).insert(row.id@, row@),
{
    let after = rows.update(at, row);
    assert(forall|i: int| 0 <= i < rows.len() ==> (#[trigger] after[i]).id@ == rows[i].id@);
    assert(distinct_ids(after));
    let found = rows_by_id(after);
    let wanted = rows_by_id(rows).insert(row.id@, row@);
    assert forall|id: Seq<u8>|
        #![trigger found.dom().contains(id)]
        #![trigger wanted.dom().contains(id)]
        #![trigger found[id]]
        found.dom().contains(id) == wanted.dom().contains(id) && (found.dom().contains(id)
            ==> found[id] == wanted[id]) by {
        if id == row.id@ {
            assert(row_has_id(after, at, id));
            lemma_row_by_id(after, at, id);
        } else {
            if exists|i: int| row_has_id(after, i, id) {
                let i = choose|i: int| row_has_id(after, i, id);
                assert(row_has_id(rows, i, id));
                lemma_row_by_id(after, i, id);
                lemma_row_by_id(rows, i, id);
            }
            if exists|i: int| row_has_id(rows, i, id) {
                let i = choose|i: int| row_has_id(rows, i, id);
                assert(row_has_id(after, i, id));
            }
        }
    }
    assert(found =~= wanted);
}

/// What reading a credential comes to.
pub open spec fn read_outcome(
    rows: Map<Seq<u8>, SealedRow>,
    key: Seq<u8>,
    id: Seq<u8>,
) -> Result<Seq<u8>, VaultFault> {
    if !rows.dom().contains(id) {
        Err(VaultFault::NotFound)
    } else if rows[id].nonce.len() != 12 {
        Err(VaultFault::Other("Invalid nonce length in db"@))
    } else {
        match crypto::opened(key, rows[id].nonce, rows[id].ciphertext) {
            Some(plaintext) => Ok(plaintext),
            None => Err(VaultFault::Crypto(aead_fault())),
        }
    }
}

/// `after` is `before` with `plaintext` sealed under `key` and stored as `id`.
pub open spec fn stores(
    before: Map<Seq<u8>, SealedRow>,
    after: Map<Seq<u8>, SealedRow>,
    key: Seq<u8>,
    id: Seq<u8>,
    plaintext: Seq<u8>,
) -> bool {
    &&& after.dom().contains(id)
    &&& after == before.insert(id, after[id])
    &&& after[id].nonce.len() == 12
    &&& after[id].ciphertext == crypto::sealed(key, after[id].nonce, plaintext)
    &&& after[id].ciphertext.len() == plaintext.len() + 16
}

/// The row was sealed with a nonce that the system's random source gave, at a time that its clock
/// told.
pub open spec fn sealed_now(row: SealedRow) -> bool {
    &&& drawn_nonce(row.nonce)
    &&& exists|now: u64| #[trigger]
        clock::clock_told(Ok::<u64, String>(now)) && row.created_at == now as i64
}

/// Storing failed because the system's random source had nothing to give, or because its clock
/// stands before the Unix epoch.
pub open spec fn system_fault(error: VaultError) -> bool {
    ||| error@ == VaultFault::Crypto(aead_fault()) && entropy::system_failed::<12>()
    ||| error matches VaultError::Other(message) && clock::clock_told(Err::<u64, String>(message))
}

impl VaultStore {
    /// No two credentials have the same id.
    pub open spec fn wf(self) -> bool {
        distinct_ids(self.rows@)
    }

    /// What unlocking the vault comes to: the first header decides.
    pub open spec fn outcome(self, pin: Seq<u8>) -> Result<Seq<u8>, VaultFault> {
        if self.headers@.len() == 0 {
            Err(VaultFault::Other("Vault not initialized"@))
        } else {
            self.headers@[0].outcome(pin)
        }
    }

    /// A vault without rows.
    pub fn new() -> (store: Self)
        ensures
            store.wf(),
            store.headers@ == Seq::<VaultHeader>::empty(),
            store@ == Map::<Seq<u8>, SealedRow>::empty(),
            store.backup.verifier is None,
            !store.backup.confirmed,
    {
        let store = VaultStore {
            headers: Vec::new(),
            rows: Vec::new(),
            backup: Backup { verifier: None, confirmed: false },
        };
        assert forall|id: Seq<u8>| !store@.dom().contains(id) by {
            if exists|i: int| row_has_id(store.rows@, i, id) {
                let i = choose|i: int| row_has_id(store.rows@, i, id);
                assert(row_has_id(store.rows@, i, id));
            }
        }
        assert(store@ =~= Map::<Seq<u8>, SealedRow>::empty());
        store
    }

    /// The vault has a header.
    pub fn is_initialized(&self) -> (initialized: bool)
        ensures
            initialized == (self.headers@.len() > 0),
    {
        self.headers.len() > 0
    }

    /// The user has shown to have written the secret key down.
    pub fn is_protected(&self) -> (protected: bool)
        ensures
            protected == self.backup.confirmed,
    {
        self.backup.confirmed
    }

    /// Notes that the user has written the secret key down.
    pub fn mark_protected(&mut self)
        ensures
            final(self).headers == old(self).headers,
            final(self).rows == old(self).rows,
            final(self).backup.verifier == old(self).backup.verifier,
            final(self).backup.confirmed,
    {
        self.backup.confirmed = true;
    }

    /// Keeps the hash by which the secret key can be checked.
    pub fn set_secret_key_verifier(&mut self, verifier: &[u8; 32])
        ensures
            final(self).headers == old(self).headers,
            final(self).rows == old(self).rows,
            final(self).backup.verifier == Some(*verifier),
            final(self).backup.confirmed == old(self).backup.confirmed,
    {
        self.backup.verifier = Some(*verifier);
    }

    /// The hash by which the secret key can be checked.
    pub fn get_secret_key_verifier(&self) -> (result: Result<[u8; 32], VaultError>)
        ensures
            result is Ok <==> self.backup.verifier is Some,
            result matches Ok(verifier) ==> self.backup.verifier == Some(verifier),
            result matches Err(error) ==> error@ == VaultFault::NotFound,
    {
        match self.backup.verifier {
            Some(verifier) => Ok(verifier),
            None => Err(VaultError::NotFound),
        }
    }

    fn find(&self, id: &[u8]) -> (found: Option<usize>)
        requires
            self.wf(),
        ensures
            found is Some <==> self@.dom().contains(id@),
            found matches Some(i) ==> {
                &&& row_has_id(self.rows@, i as int, id@)
                &&& self@[id@] == self.rows@[i as int]@
            },
    {
        let mut i: usize = 0;
        while i < self.rows.len()
            invariant
                self.wf(),
                i <= self.rows@.len(),
                forall|j: int| 0 <= j < i ==> !#[trigger] row_has_id(self.rows@, j, id@),
            decreases self.rows@.len() - i,
        {
            if bytes::same(&self.rows[i].id, id) {
                proof {
                    lemma_row_by_id(self.rows@, i as int, id@);
                }
                return Some(i);
            }
            i = i + 1;
        }
        None
    }

    /// Stores a row under its id, in place of the one that was there.
    pub fn put_credential(&mut self, row: Credential)
        requires
            old(self).wf(),
        ensures
            final(self).wf(),
            final(self).headers == old(self).headers,
            final(self).backup == old(self).backup,
            final(self)@ == old(self)@.insert(row.id@, row@),
    {
        match self.find(&row.id) {
            Some(i) => {
                proof {
                    lemma_row_replaced(self.rows@, i as int, row);
                }
                self.rows[i] = row;
            },
            None => {
                proof {
                    lemma_row_pushed(self.rows@, row);
                }
                self.rows.push(row);
            },
        }
    }

    /// Locks a new vault key with the PIN, stores the header and gives the key.
    pub fn initialize_vault(&mut self, pin: &[u8]) -> (result: Result<[u8; 32], VaultError>)
        ensures
            final(self).rows == old(self).rows,
            final(self).backup == old(self).backup,
            pin@.len() > pin_limit() ==> result is Err,
            result matches Ok(key) ==> (old(self).headers@.len() == 0 ==> final(self).outcome(pin@)
                == Ok::<Seq<u8>, VaultFault>(key@)),
            result matches Ok(key) ==> {
                &&& final(self).headers@.len() == old(self).headers@.len() + 1
                &&& final(self).headers@.drop_last() == old(self).headers@
                &&& entropy::os_gave(key)
                &&& exists|salt: [u8; 16]| #[trigger]
                    entropy::os_gave(salt) && locks(
                        final(self).headers@.last(),
                        pin@,
                        salt@,
                        key@,
                    )
                &&& drawn_nonce(final(self).headers@.last().sealed_key@.take(12))
                &&& drawn_nonce(final(self).headers@.last().sealed_check@.take(12))
                &&& final(self).headers@.last().outcome(pin@) == Ok::<Seq<u8>, VaultFault>(key@)
            },
            result matches Err(error) ==> {
                &&& final(self).headers == old(self).headers
                &&& error@ == VaultFault::Crypto(
                    if pin@.len() > pin_limit() {
                        pin_fault()
                    } else {
                        aead_fault()
                    },
                )
                &&& pin@.len() <= pin_limit() ==> entropy::system_failed::<12>()
            },
    {
        let salt: [u8; 16] = entropy::os_draw();
        let master_key = match derive_master_key(pin, &salt) {
            Ok(key) => key,
            Err(error) => return Err(VaultError::Crypto(error)),
        };
        let stretched = stretch_key(&master_key);
        let vault_key: [u8; 32] = entropy::os_draw();
        let protected = match encrypt_protected_vault_key(&stretched, &vault_key) {
            Ok(block) => block,
            Err(error) => return Err(VaultError::Crypto(error)),
        };
        let check_block = "chaperone-vault-check-bytes-3210".as_bytes();
        proof {
            reveal_strlit("chaperone-vault-check-bytes-3210");
            vstd::utf8::is_ascii_chars_encode_utf8("chaperone-vault-check-bytes-3210"@);
        }
        let check = match encrypt_block(&stretched.1, check_block) {
            Ok(block) => block,
            Err(error) => return Err(VaultError::Crypto(error)),
        };
        let header = assemble_header(&salt, &protected, &check);
        proof {
            assert(header.sealed_key@.take(12) =~= protected.1@);
            assert(header.sealed_key@.skip(12) =~= protected.0@);
            assert(header.sealed_check@.take(12) =~= check.1@);
            assert(header.sealed_check@.skip(12) =~= check.0@);
            assert(locks(header, pin@, salt@, vault_key@));
            lemma_locked_header_opens(header, pin@, salt@, vault_key@);
        }
        self.headers.push(header);
        assert(self.headers@.drop_last() =~= old(self).headers@);
        Ok(vault_key)
    }

    /// Unlocks the vault key with the PIN.
    pub fn unlock_key(&self, pin: &[u8]) -> (result: Result<[u8; 32], VaultError>)
        ensures
            key_outcome(result) == self.outcome(pin@),
    {
        if self.headers.len() == 0 {
            return Err(VaultError::Other("Vault not initialized".to_owned()));
        }
        self.headers[0].unlock_key(pin)
    }

    /// Unlocks the vault with the PIN and hands it over with its key.
    pub fn unlock(self, pin: &[u8]) -> (result: Result<VaultHandle, VaultError>)
        ensures
            result is Ok <==> self.outcome(pin@) is Ok,
            result matches Ok(handle) ==> {
                &&& self.outcome(pin@) == Ok::<Seq<u8>, VaultFault>(handle.key())
                &&& handle.vault() == self
            },
            result matches Err(error) ==> self.outcome(pin@) == Err::<Seq<u8>, VaultFault>(error@),
    {
        match self.unlock_key(pin) {
            Ok(vault_key) => Ok(
                VaultHandle {
                    vault_key: Scrubbed::new(KeyBytes { bytes: vault_key }),
                    store: self,
                },
            ),
            Err(error) => Err(error),
        }
    }

    /// Seals a row under the vault key and a fresh nonce.
    pub fn encrypt_row(&self, vault_key: &[u8; 32], plaintext: &[u8]) -> (result: Result<
        (Vec<u8>, [u8; 12]),
        VaultError,
    >)
        ensures
            plaintext@.len() > crypto::SEAL_LIMIT ==> result is Err,
            result matches Ok((ciphertext, nonce)) ==> {
                &&& ciphertext@ == crypto::sealed(vault_key@, nonce@, plaintext@)
                &&& ciphertext@.len() == plaintext@.len() + 16
                &&& crypto::opened(vault_key@, nonce@, ciphertext@) == Some(plaintext@)
                &&& entropy::system_gave(Ok::<[u8; 12], String>(nonce))
            },
            result matches Err(error) ==> error@ == VaultFault::Crypto(aead_fault()),
            result is Err && plaintext@.len() <= crypto::SEAL_LIMIT ==> entropy::system_failed::<
                12,
            >(),
    {
        match encrypt_block(vault_key, plaintext) {
            Ok(block) => Ok(block),
            Err(error) => Err(VaultError::Crypto(error)),
        }
    }

    /// Opens a row with the vault key.
    pub fn decrypt_row(&self, vault_key: &[u8; 32], ciphertext: &[u8], nonce: &[u8; 12]) -> (result:
        Result<Vec<u8>, VaultError>)
        ensures
            data_outcome(result) == match crypto::opened(vault_key@, nonce@, ciphertext@) {
                Some(plaintext) => Ok(plaintext),
                None => Err(VaultFault::Crypto(aead_fault())),
            },
            result matches Ok(plaintext) ==> ciphertext@ == crypto::sealed(
                vault_key@,
                nonce@,
                plaintext@,
            ),
    {
        match decrypt_block(vault_key, ciphertext, nonce) {
            Ok(plaintext) => Ok(plaintext),
            Err(error) => Err(VaultError::Crypto(error)),
        }
    }

    /// Seals a credential and stores it under `id`, in place of one that was there. It fails on
    /// a plaintext that is too long, where the system has no random bytes, and where the clock
    /// stands before the Unix epoch.
    pub fn insert_credential(&mut self, vault_key: &[u8; 32], id: &[u8], plaintext: &[u8]) -> (result:
        Result<(), VaultError>)
        requires
            old(self).wf(),
        ensures
            final(self).wf(),
            final(self).headers == old(self).headers,
            final(self).backup == old(self).backup,
            plaintext@.len() > crypto::SEAL_LIMIT ==> (result matches Err(error) && error@
                == VaultFault::Crypto(aead_fault())),
            result is Ok ==> {
                &&& stores(old(self)@, final(self)@, vault_key@, id@, plaintext@)
                &&& sealed_now(final(self)@[id@])
                &&& read_outcome(final(self)@, vault_key@, id@) == Ok::<Seq<u8>, VaultFault>(
                    plaintext@,
                )
            },
            result matches Err(error) ==> {
                &&& *final(self) == *old(self)
                &&& plaintext@.len() <= crypto::SEAL_LIMIT ==> system_fault(error)
            },
    {
        let (ciphertext, nonce) = match self.encrypt_row(vault_key, plaintext) {
            Ok(block) => block,
            Err(error) => return Err(error),
        };
        let now: u64 = match clock::unix_time() {
            Ok(now) => now,
            Err(message) => return Err(VaultError::Other(message)),
        };
        let row = sealed_row(id, ciphertext, &nonce, now);
        self.put_credential(row);
        assert(self@ =~= old(self)@.insert(id@, self@[id@]));
        Ok(())
    }

    /// Reads and opens the credential that is stored under `id`.
    pub fn read_credential(&self, vault_key: &[u8; 32], id: &[u8]) -> (result: Result<
        Vec<u8>,
        VaultError,
    >)
        requires
            self.wf(),
        ensures
            data_outcome(result) == read_outcome(self@, vault_key@, id@),
            !self@.dom().contains(id@) <==> result matches Err(VaultError::NotFound),
            result matches Ok(plaintext) ==> {
                &&& self@[id@].nonce.len() == 12
                &&& crypto::opened(vault_key@, self@[id@].nonce, self@[id@].ciphertext) == Some(
                    plaintext@,
                )
            },
    {
        match self.find(id) {
            Some(i) => {
                let row = &self.rows[i];
                let nonce: [u8; 12] = match bytes::exact_array(&row.nonce) {
                    Some(nonce) => nonce,
                    None => return Err(
                        VaultError::Other("Invalid nonce length in db".to_owned()),
                    ),
                };
                self.decrypt_row(vault_key, &row.ciphertext, &nonce)
            },
            None => Err(VaultError::NotFound),
        }
    }
}

/// Storing a credential leaves every other credential as it was: under any key it reads as
/// before.
pub proof fn other_credentials_stay(
    before: Map<Seq<u8>, SealedRow>,
    after: Map<Seq<u8>, SealedRow>,
    key: Seq<u8>,
    id: Seq<u8>,
    plaintext: Seq<u8>,
    other_key: Seq<u8>,
    other_id: Seq<u8>,
)
    requires
        stores(before, after, key, id, plaintext),
        other_id != id,
    ensures
        read_outcome(after, other_key, other_id) == read_outcome(before, other_key, other_id),
{
}

/// The row for a sealed credential.
pub fn sealed_row(id: &[u8], ciphertext: Vec<u8>, nonce: &[u8; 12], now: u64) -> (row: Credential)
    ensures
        row.id@ == id@,
        row.ciphertext == ciphertext,
        row.nonce@ == nonce@,
        row.created_at == now as i64,
{
    Credential { id: bytes::copy(id), ciphertext, nonce: bytes::copy(nonce), created_at: now as i64 }
}

/// An unlocked vault: its rows and the key that opens them. The key is erased when the handle is
/// dropped.
pub struct VaultHandle {
    vault_key: Scrubbed<KeyBytes>,
    pub store: VaultStore,
}

impl VaultHandle {
    /// The key that opens the rows.
    pub closed spec fn key(self) -> Seq<u8> {
        self.vault_key.0.bytes@
    }

    /// The rows of the vault.
    pub closed spec fn vault(self) -> VaultStore {
        self.store
    }

    /// The handle holds this key.
    pub fn holds_key(&self, key: &[u8; 32]) -> (holds: bool)
        ensures
            holds == (key@ == self.key()),
    {
        bytes::same(key, &self.vault_key.0.bytes)
    }

    /// What a log may show of the handle.
    pub fn debug_text(&self) -> (text: String)
        ensures
            text@ == "VaultHandle { vault_key: \"<redacted>\" }"@,
    {
        "VaultHandle { vault_key: \"<redacted>\" }".to_owned()
    }

    /// Overwrites the key with zeros.
    pub fn wipe(&mut self)
        ensures
            final(self).key() == Seq::new(32, |i: int| 0u8),
            final(self).vault() == old(self).vault(),
    {
        self.vault_key.0.wipe();
    }

    /// Drops the key, which erases it, and gives the rows back.
    pub fn lock(self) -> (store: VaultStore)
        ensures
            store == self.vault(),
    {
        self.store
    }

    /// Reads and opens the credential that is stored under `id`.
    pub fn read(&self, id: &[u8; 16]) -> (result: Result<Vec<u8>, VaultError>)
        requires
            self.vault().wf(),
        ensures
            data_outcome(result) == read_outcome(self.vault()@, self.key(), id@),
    {
        self.store.read_credential(&self.vault_key.0.bytes, id)
    }

    /// Seals a credential and stores it under `id`.
    pub fn write(&mut self, id: &[u8; 16], plaintext: &[u8]) -> (result: Result<(), VaultError>)
        requires
            old(self).vault().wf(),
        ensures
            final(self).key() == old(self).key(),
            final(self).vault().wf(),
            final(self).vault().headers == old(self).vault().headers,
            final(self).vault().backup == old(self).vault().backup,
            plaintext@.len() > crypto::SEAL_LIMIT ==> (result matches Err(error) && error@
                == VaultFault::Crypto(aead_fault())),
            result is Ok ==> {
                &&& stores(
                    old(self).vault()@,
                    final(self).vault()@,
                    old(self).key(),
                    id@,
                    plaintext@,
                )
                &&& sealed_now(final(self).vault()@[id@])
                &&& read_outcome(final(self).vault()@, old(self).key(), id@) == Ok::<
                    Seq<u8>,
                    VaultFault,
                >(plaintext@)
            },
            result matches Err(error) ==> {
                &&& *final(self) == *old(self)
                &&& plaintext@.len() <= crypto::SEAL_LIMIT ==> system_fault(error)
            },
    {
        self.store.insert_credential(&self.vault_key.0.bytes, id, plaintext)
    }
}

/// The parameters of a header tell the costs and the salt.
pub proof fn header_tells_the_costs(salt: Seq<u8>)
    ensures
        kdf_text(salt) == "m=19456,t=2,p=1,salt="@ + base58::base58_text(salt),
{
    reveal_strlit("m=");
    reveal_strlit(",t=");
    reveal_strlit(",p=");
    reveal_strlit(",salt=");
    reveal_strlit("m=19456,t=2,p=1,salt=");
    reveal_with_fuel(numeral::minimal_digits, 6);
    assert(numeral::minimal_digits(1, 10) =~= seq![1nat]);
    assert(numeral::minimal_digits(2, 10) =~= seq![2nat]);
    assert(numeral::minimal_digits(19, 10) =~= seq![1nat, 9nat]);
    assert(numeral::minimal_digits(194, 10) =~= seq![1nat, 9nat, 4nat]);
    assert(numeral::minimal_digits(1945, 10) =~= seq![1nat, 9nat, 4nat, 5nat]);
    assert(numeral::minimal_digits(19456, 10) =~= seq![1nat, 9nat, 4nat, 5nat, 6nat]);
    assert(text::decimal_text(19456) =~= seq!['1', '9', '4', '5', '6']);
    assert(text::decimal_text(2) =~= seq!['2']);
    assert(text::decimal_text(1) =~= seq!['1']);
    assert(kdf_text(salt) =~= "m=19456,t=2,p=1,salt="@ + base58::base58_text(salt));
}

/// The master key comes from the whole PIN and the whole salt: Argon2id gets both as they are.
pub proof fn master_key_takes_the_whole_pin(pin: Seq<u8>, salt: Seq<u8>)
    ensures
        master_key(pin, salt) == crypto::argon2id_key(pin, salt, 19456, 2, 1),
        pin_limit() == 0xffff_ffff,
        pin_fault() == CryptoFault::Argon2("password is too long"@),
        aead_fault() == CryptoFault::Aead("ring::error::Unspecified"@),
{
}

/// The two keys that a master key is stretched to are the first and the second half of the 64
/// bytes that HKDF expands from it.
pub proof fn stretched_halves(master: Seq<u8>, expanded: Seq<u8>, first: Seq<u8>, second: Seq<u8>)
    requires
        expanded == crypto::hkdf_sha256(master, bytes::utf8("chaperone-vault-stretch"@), 64),
        expanded == first + second,
        first.len() == 32,
        second.len() == 32,
    ensures
        encryption_key(master) == first,
        check_key(master) == second,
{
    assert(expanded.subrange(0, 32) =~= first);
    assert(expanded.subrange(32, 64) =~= second);
}

/// A header that opens with a PIN holds a salt of 16 bytes, a check block that opens under the
/// check key of the whole PIN and that salt, and the sealed key, which opens under the encryption
/// key and has 32 bytes.
pub proof fn unlocked_header_knows_the_pin(
    kdf_params: Seq<char>,
    protected: Seq<u8>,
    check: Seq<u8>,
    pin: Seq<u8>,
    key: Seq<u8>,
) -> (salt: Seq<u8>)
    requires
        unlock_outcome(kdf_params, protected, check, pin) == Ok::<Seq<u8>, VaultFault>(key),
    ensures
        salt.len() == 16,
        kdf_param(kdf_params, "salt"@) == Some(base58::base58_text(salt)),
        pin.len() <= 0xffff_ffff,
        check.len() >= 12,
        crypto::opened(
            crypto::hkdf_sha256(
                crypto::argon2id_key(pin, salt, 19456, 2, 1),
                bytes::utf8("chaperone-vault-stretch"@),
                64,
            ).subrange(32, 64),
            check.subrange(0, 12),
            check.subrange(12, check.len() as int),
        ) == Some(bytes::utf8("chaperone-vault-check-bytes-3210"@)),
        protected.len() >= 12,
        crypto::opened(
            crypto::hkdf_sha256(
                crypto::argon2id_key(pin, salt, 19456, 2, 1),
                bytes::utf8("chaperone-vault-stretch"@),
                64,
            ).subrange(0, 32),
            protected.subrange(0, 12),
            protected.subrange(12, protected.len() as int),
        ) == Some(key),
        key.len() == 32,
{
    let salt_text = kdf_param(kdf_params, "salt"@)->Some_0;
    base58::base58_reads_one_text(salt_text);
    assert(check.take(12) =~= check.subrange(0, 12));
    assert(check.skip(12) =~= check.subrange(12, check.len() as int));
    assert(protected.take(12) =~= protected.subrange(0, 12));
    assert(protected.skip(12) =~= protected.subrange(12, protected.len() as int));
    base58::base58_bytes(salt_text)
}

/// What opening a header comes to, for every salt of 16 bytes that it holds: the PIN opens it if
/// both blocks open under the keys of the whole PIN; else what is wrong is told in order.
pub proof fn header_opens_with_the_pin_alone(
    kdf_params: Seq<char>,
    check_nonce: Seq<u8>,
    check_block: Seq<u8>,
    key_nonce: Seq<u8>,
    key_block: Seq<u8>,
    pin: Seq<u8>,
    salt: Seq<u8>,
    encryption: Seq<u8>,
    checking: Seq<u8>,
)
    requires
        kdf_param(kdf_params, "salt"@) == Some(base58::base58_text(salt)),
        salt.len() == 16,
        check_nonce.len() == 12,
        key_nonce.len() == 12,
        encryption.len() == 32,
        checking.len() == 32,
        encryption + checking == crypto::hkdf_sha256(
            crypto::argon2id_key(pin, salt, 19456, 2, 1),
            bytes::utf8("chaperone-vault-stretch"@),
            64,
        ),
    ensures
        ({
            let outcome = unlock_outcome(
                kdf_params,
                key_nonce + key_block,
                check_nonce + check_block,
                pin,
            );
            let checked = crypto::opened(checking, check_nonce, check_block);
            let found = crypto::opened(encryption, key_nonce, key_block);
            if pin.len() > 0xffff_ffff {
                outcome == Err::<Seq<u8>, VaultFault>(
                    VaultFault::Crypto(CryptoFault::Argon2("password is too long"@)),
                )
            } else if checked != Some(bytes::utf8("chaperone-vault-check-bytes-3210"@)) {
                outcome == Err::<Seq<u8>, VaultFault>(
                    VaultFault::Crypto(CryptoFault::Other("Incorrect PIN"@)),
                )
            } else if found is None {
                outcome == Err::<Seq<u8>, VaultFault>(
                    VaultFault::Crypto(CryptoFault::Aead("ring::error::Unspecified"@)),
                )
            } else if found->Some_0.len() != 32 {
                outcome == Err::<Seq<u8>, VaultFault>(
                    VaultFault::Crypto(
                        CryptoFault::Other("Decrypted vault key has invalid length"@),
                    ),
                )
            } else {
                outcome == Ok::<Seq<u8>, VaultFault>(found->Some_0)
            }
        }),
{
    let check = check_nonce + check_block;
    let protected = key_nonce + key_block;
    base58::base58_round_trip(salt);
    stretched_halves(
        crypto::argon2id_key(pin, salt, 19456, 2, 1),
        encryption + checking,
        encryption,
        checking,
    );
    assert(check.take(12) =~= check_nonce);
    assert(check.skip(12) =~= check_block);
    assert(protected.take(12) =~= key_nonce);
    assert(protected.skip(12) =~= key_block);
}

/// A header without a salt, or with a salt that is not base58 or has another length than 16
/// bytes, opens with no PIN; nor does one with a block that is shorter than a nonce, and no header
/// opens with a PIN that is too long.
pub proof fn misshapen_header_stays_shut(
    kdf_params: Seq<char>,
    protected: Seq<u8>,
    check: Seq<u8>,
    pin: Seq<u8>,
    salt: Seq<u8>,
)
    ensures
        kdf_param(kdf_params, "salt"@) is None ==> unlock_outcome(
            kdf_params,
            protected,
            check,
            pin,
        ) == Err::<Seq<u8>, VaultFault>(VaultFault::Other("Missing parameter: "@ + "salt"@)),
        kdf_param(kdf_params, "salt"@) matches Some(found) ==> (!base58::is_base58(found)
            ==> unlock_outcome(kdf_params, protected, check, pin) == Err::<Seq<u8>, VaultFault>(
            VaultFault::Other(base58::base58_complaint(found)),
        )),
        kdf_param(kdf_params, "salt"@) == Some(base58::base58_text(salt)) && salt.len() != 16
            ==> unlock_outcome(kdf_params, protected, check, pin) == Err::<Seq<u8>, VaultFault>(
            VaultFault::Other("Invalid salt length in db"@),
        ),
        kdf_param(kdf_params, "salt"@) == Some(base58::base58_text(salt)) && salt.len() == 16
            && pin.len() > 0xffff_ffff ==> unlock_outcome(kdf_params, protected, check, pin)
            == Err::<Seq<u8>, VaultFault>(
            VaultFault::Crypto(CryptoFault::Argon2("password is too long"@)),
        ),
        kdf_param(kdf_params, "salt"@) == Some(base58::base58_text(salt)) && salt.len() == 16
            && pin.len() <= 0xffff_ffff && check.len() < 12 ==> unlock_outcome(
            kdf_params,
            protected,
            check,
            pin,
        ) == Err::<Seq<u8>, VaultFault>(VaultFault::Other("Invalid check block length"@)),
        kdf_param(kdf_params, "salt"@) == Some(base58::base58_text(salt)) && salt.len() == 16
            && pin.len() <= 0xffff_ffff && check.len() >= 12 && crypto::opened(
            crypto::hkdf_sha256(
                crypto::argon2id_key(pin, salt, 19456, 2, 1),
                bytes::utf8("chaperone-vault-stretch"@),
                64,
            ).subrange(32, 64),
            check.take(12),
            check.skip(12),
        ) == Some(bytes::utf8("chaperone-vault-check-bytes-3210"@)) && protected.len() < 12
            ==> unlock_outcome(kdf_params, protected, check, pin) == Err::<Seq<u8>, VaultFault>(
            VaultFault::Other("Invalid protected key length"@),
        ),
{
    base58::base58_round_trip(salt);
}

/// The value of a parameter is that of the first piece between commas which reads `key=value`,
/// and there is none where no piece does.
pub proof fn first_parameter_counts(params: Seq<char>, key: Seq<char>, value: Seq<char>, at: int)
    requires
        !key.contains('='),
        !value.contains('='),
    ensures
        0 <= at < text::pieces(params, ',').len() && text::pieces(params, ',')[at] == key.push('=')
            + value && (forall|i: int, other: Seq<char>|
            0 <= i < at && !other.contains('=') ==> #[trigger] text::pieces(params, ',')[i]
                != #[trigger] (key.push('=') + other)) ==> kdf_param(params, key) == Some(value),
        kdf_param(params, key) matches Some(found) ==> !found.contains('=') && text::pieces(
            params,
            ',',
        ).contains(key.push('=') + found),
{
    let parts = text::pieces(params, ',');
    assert(parts.skip(0) =~= parts);
    if 0 <= at < parts.len() && parts[at] == key.push('=') + value && (forall|
        i: int,
        other: Seq<char>,
    |
        0 <= i < at && !other.contains('=') ==> #[trigger] parts[i] != #[trigger] (key.push('=')
            + other)) {
        assert forall|i: int| 0 <= i < at implies !reads_key(#[trigger] parts[i], key) by {
            if reads_key(parts[i], key) {
                lemma_key_and_value(parts[i], key);
            }
        }
        lemma_key_value(key, value);
        lemma_first_value(parts, key, at, 0);
    }
    if kdf_param(params, key) is Some {
        lemma_found_value(parts, key, 0);
    }
}

/// The piece reads `key=value` for some value.
spec fn reads_key(part: Seq<char>, key: Seq<char>) -> bool {
    text::pieces(part, '=').len() == 2 && text::pieces(part, '=')[0] == key
}

proof fn lemma_key_and_value(part: Seq<char>, key: Seq<char>)
    requires
        reads_key(part, key),
    ensures
        part == key.push('=') + text::pieces(part, '=')[1],
        !text::pieces(part, '=')[1].contains('='),
{
    let kv = text::pieces(part, '=');
    text::pieces_make_the_text(part, '=');
    assert(kv.drop_last() =~= seq![kv[0]]);
    reveal_with_fuel(text::joined, 2);
}

proof fn lemma_first_value(parts: Seq<Seq<char>>, key: Seq<char>, at: int, from: int)
    requires
        0 <= from <= at < parts.len(),
        reads_key(parts[at], key),
        forall|i: int| from <= i < at ==> !reads_key(#[trigger] parts[i], key),
    ensures
        first_value(parts.skip(from), key) == Some(text::pieces(parts[at], '=')[1]),
    decreases at - from,
{
    assert(parts.skip(from)[0] == parts[from]);
    if from < at {
        assert(parts.skip(from).skip(1) =~= parts.skip(from + 1));
        lemma_first_value(parts, key, at, from + 1);
    }
}

proof fn lemma_found_value(parts: Seq<Seq<char>>, key: Seq<char>, from: int)
    requires
        0 <= from <= parts.len(),
        first_value(parts.skip(from), key) is Some,
    ensures
        !key.contains('='),
        !first_value(parts.skip(from), key)->Some_0.contains('='),
        parts.contains(key.push('=') + first_value(parts.skip(from), key)->Some_0),
    decreases parts.len() - from,
{
    if from < parts.len() {
        assert(parts.skip(from)[0] == parts[from]);
        if reads_key(parts[from], key) {
            lemma_key_and_value(parts[from], key);
            text::pieces_make_the_text(parts[from], '=');
        } else {
            assert(parts.skip(from).skip(1) =~= parts.skip(from + 1));
            lemma_found_value(parts, key, from + 1);
        }
    }
}

/// A header that locks a key holds the costs, the salt, and the two blocks that are sealed under
/// the keys of the whole PIN, each behind its nonce.
pub proof fn locked_header_is_sealed_under_the_pin(
    header: VaultHeader,
    pin: Seq<u8>,
    salt: Seq<u8>,
    key: Seq<u8>,
    encryption: Seq<u8>,
    checking: Seq<u8>,
)
    requires
        encryption.len() == 32,
        checking.len() == 32,
        encryption + checking == crypto::hkdf_sha256(
            crypto::argon2id_key(pin, salt, 19456, 2, 1),
            bytes::utf8("chaperone-vault-stretch"@),
            64,
        ),
    ensures
        locks(header, pin, salt, key) <==> {
            &&& salt.len() == 16
            &&& header.schema_version == 1
            &&& header.kdf_algo@ == "argon2id"@
            &&& header.kdf_params@ == "m=19456,t=2,p=1,salt="@ + base58::base58_text(salt)
            &&& header.sealed_key@.len() == 60
            &&& header.sealed_key@.subrange(12, 60) == crypto::sealed(
                encryption,
                header.sealed_key@.subrange(0, 12),
                key,
            )
            &&& header.sealed_check@.len() == 60
            &&& header.sealed_check@.subrange(12, 60) == crypto::sealed(
                checking,
                header.sealed_check@.subrange(0, 12),
                bytes::utf8("chaperone-vault-check-bytes-3210"@),
            )
        },
{
    header_tells_the_costs(salt);
    stretched_halves(
        crypto::argon2id_key(pin, salt, 19456, 2, 1),
        encryption + checking,
        encryption,
        checking,
    );
    let protected = header.sealed_key@;
    let check = header.sealed_check@;
    if protected.len() == 60 {
        assert(protected.take(12) =~= protected.subrange(0, 12));
        assert(protected.skip(12) =~= protected.subrange(12, 60));
    }
    if check.len() == 60 {
        assert(check.take(12) =~= check.subrange(0, 12));
        assert(check.skip(12) =~= check.subrange(12, 60));
    }
}

/// A header is opened by what it holds; a vault by its first header, and not at all before it has
/// one.
pub proof fn first_header_decides(store: VaultStore, pin: Seq<u8>)
    ensures
        store.headers@.len() == 0 ==> store.outcome(pin) == Err::<Seq<u8>, VaultFault>(
            VaultFault::Other("Vault not initialized"@),
        ),
        store.headers@.len() > 0 ==> store.outcome(pin) == unlock_outcome(
            store.headers@[0].kdf_params@,
            store.headers@[0].sealed_key@,
            store.headers@[0].sealed_check@,
            pin,
        ),
{
}

/// A sealed vault key is opened to the 32 bytes that were sealed, and to nothing else.
pub proof fn protected_key_has_32_bytes(key: Seq<u8>, ciphertext: Seq<u8>, nonce: Seq<u8>)
    ensures
        crypto::opened(key, nonce, ciphertext) is None ==> protected_key_outcome(
            key,
            ciphertext,
            nonce,
        ) == Err::<Seq<u8>, CryptoFault>(CryptoFault::Aead("ring::error::Unspecified"@)),
        crypto::opened(key, nonce, ciphertext) matches Some(found) ==> protected_key_outcome(
            key,
            ciphertext,
            nonce,
        ) == if found.len() == 32 {
            Ok::<Seq<u8>, CryptoFault>(found)
        } else {
            Err::<Seq<u8>, CryptoFault>(
                CryptoFault::Other("Decrypted vault key has invalid length"@),
            )
        },
{
}

/// Every row is found under its own id, and under no other id is there anything.
pub proof fn rows_are_found_by_id(rows: Seq<Credential>, i: int, id: Seq<u8>)
    requires
        forall|a: int, b: int|
            0 <= a < b < rows.len() ==> (#[trigger] rows[a]).id@ != (#[trigger] rows[b]).id@,
    ensures
        0 <= i < rows.len() ==> {
            &&& rows_by_id(rows).dom().contains(rows[i].id@)
            &&& rows_by_id(rows)[rows[i].id@].ciphertext == rows[i].ciphertext@
            &&& rows_by_id(rows)[rows[i].id@].nonce == rows[i].nonce@
            &&& rows_by_id(rows)[rows[i].id@].created_at == rows[i].created_at
        },
        (forall|a: int| 0 <= a < rows.len() ==> (#[trigger] rows[a]).id@ != id) ==> !rows_by_id(
            rows,
        ).dom().contains(id),
{
    if 0 <= i < rows.len() {
        lemma_row_by_id(rows, i, rows[i].id@);
    }
    if rows_by_id(rows).dom().contains(id) {
        let a = choose|a: int| row_has_id(rows, a, id);
        assert(rows[a].id@ == id);
    }
}

/// A credential is read by opening what is stored under its id with its nonce; what is wrong is
/// told in order: no such id, a nonce of another length than 12 bytes, a block that does not
/// open.
pub proof fn reading_opens_the_row(rows: Map<Seq<u8>, SealedRow>, key: Seq<u8>, id: Seq<u8>)
    ensures
        !rows.dom().contains(id) ==> read_outcome(rows, key, id) == Err::<Seq<u8>, VaultFault>(
            VaultFault::NotFound,
        ),
        rows.dom().contains(id) && rows[id].nonce.len() != 12 ==> read_outcome(rows, key, id)
            == Err::<Seq<u8>, VaultFault>(VaultFault::Other("Invalid nonce length in db"@)),
        rows.dom().contains(id) && rows[id].nonce.len() == 12 ==> match crypto::opened(
            key,
            rows[id].nonce,
            rows[id].ciphertext,
        ) {
            Some(plaintext) => read_outcome(rows, key, id) == Ok::<Seq<u8>, VaultFault>(plaintext),
            None => read_outcome(rows, key, id) == Err::<Seq<u8>, VaultFault>(
                VaultFault::Crypto(CryptoFault::Aead("ring::error::Unspecified"@)),
            ),
        },
{
}

/// Storing a credential seals the whole plaintext under the key and changes no other row.
pub proof fn stored_row_is_the_sealed_plaintext(
    before: Map<Seq<u8>, SealedRow>,
    after: Map<Seq<u8>, SealedRow>,
    key: Seq<u8>,
    id: Seq<u8>,
    plaintext: Seq<u8>,
    other: Seq<u8>,
)
    requires
        stores(before, after, key, id, plaintext),
    ensures
        after.dom().contains(id),
        after[id].nonce.len() == 12,
        after[id].ciphertext == crypto::sealed(key, after[id].nonce, plaintext),
        after[id].ciphertext.len() == plaintext.len() + 16,
        other != id ==> after.dom().contains(other) == before.dom().contains(other),
        other != id && before.dom().contains(other) ==> after[other] == before[other],
{
}

/// A row that was sealed now has a nonce that the system's random source gave and a time that its
/// clock told.
pub proof fn sealed_row_is_fresh(row: SealedRow) -> (drawn: ([u8; 12], u64))
    requires
        sealed_now(row),
    ensures
        entropy::system_gave(Ok::<[u8; 12], String>(drawn.0)),
        row.nonce == drawn.0@,
        clock::clock_told(Ok::<u64, String>(drawn.1)),
        row.created_at == drawn.1 as i64,
{
    let nonce = choose|nonce: [u8; 12]| #[trigger]
        entropy::system_gave(Ok::<[u8; 12], String>(nonce)) && row.nonce == nonce@;
    let now = choose|now: u64| #[trigger]
        clock::clock_told(Ok::<u64, String>(now)) && row.created_at == now as i64;
    (nonce, now)
}

/// Storing that failed on the system's account failed for want of random bytes or of a clock after
/// the Unix epoch, and says which.
pub proof fn system_faults_are_two(error: VaultError)
    requires
        system_fault(error),
    ensures
        error matches VaultError::Crypto(CryptoError::Aead(message)) ==> message@
            == "ring::error::Unspecified"@ && entropy::system_failed::<12>(),
        error matches VaultError::Other(message) ==> clock::clock_told(Err::<u64, String>(message)),
        error is Crypto || error is Other,
{
}

/// An error is told apart by its kind and by its text.
pub proof fn vault_error_by_its_text(
    error: VaultError,
    cause: CryptoError,
    message: String,
)
    ensures
        cause == CryptoError::Argon2(message) ==> cause@ == CryptoFault::Argon2(message@),
        cause == CryptoError::Aead(message) ==> cause@ == CryptoFault::Aead(message@),
        cause == CryptoError::Other(message) ==> cause@ == CryptoFault::Other(message@),
        error == VaultError::Database(message) ==> error@ == VaultFault::Database(message@),
        error == VaultError::Migration(message) ==> error@ == VaultFault::Migration(message@),
        error == VaultError::InvalidPath ==> error@ == VaultFault::InvalidPath,
        error == VaultError::NotFound ==> error@ == VaultFault::NotFound,
        error == VaultError::Crypto(cause) ==> error@ == VaultFault::Crypto(cause@),
        error == VaultError::Other(message) ==> error@ == VaultFault::Other(message@),
{
}

/// A result is told by what it holds.
pub proof fn vault_results_by_content(
    key: Result<[u8; 32], VaultError>,
    data: Result<Vec<u8>, VaultError>,
)
    ensures
        key matches Ok(held) ==> key_outcome(key) == Ok::<Seq<u8>, VaultFault>(held@),
        key matches Err(error) ==> key_outcome(key) == Err::<Seq<u8>, VaultFault>(error@),
        data matches Ok(held) ==> data_outcome(data) == Ok::<Seq<u8>, VaultFault>(held@),
        data matches Err(error) ==> data_outcome(data) == Err::<Seq<u8>, VaultFault>(error@),
{
}

/// No two credentials of a vault in order have one id, and each is found under its id.
pub proof fn vault_finds_its_rows(store: VaultStore, i: int, j: int)
    requires
        store.wf(),
        0 <= i < store.rows@.len(),
        0 <= j < store.rows@.len(),
        i != j,
    ensures
        store.rows@[i].id@ != store.rows@[j].id@,
        store@.dom().contains(store.rows@[i].id@),
        store@[store.rows@[i].id@].ciphertext == store.rows@[i].ciphertext@,
        store@[store.rows@[i].id@].nonce == store.rows@[i].nonce@,
        store@[store.rows@[i].id@].created_at == store.rows@[i].created_at,
{
    rows_are_found_by_id(store.rows@, i, store.rows@[i].id@);
}

/// A nonce that was drawn is one that the system's random source gave.
pub proof fn drawn_nonce_was_given(nonce: Seq<u8>) -> (drawn: [u8; 12])
    requires
        drawn_nonce(nonce),
    ensures
        entropy::system_gave(Ok::<[u8; 12], String>(drawn)),
        nonce == drawn@,
{
    choose|drawn: [u8; 12]| #[trigger]
        entropy::system_gave(Ok::<[u8; 12], String>(drawn)) && nonce == drawn@
}

/// No parameter has an equals sign in its name.
pub proof fn parameter_names_have_no_equals_sign(params: Seq<char>, key: Seq<char>)
    requires
        key.contains('='),
    ensures
        kdf_param(params, key) is None,
{
    let parts = text::pieces(params, ',');
    assert(parts.skip(0) =~= parts);
    if kdf_param(params, key) is Some {
        lemma_found_value(parts, key, 0);
    }
}

} // verus!
