//! The secrets vault: environment entries encrypted at rest under a master
//! password (AES-256-GCM with a PBKDF2-SHA256 key), stored as hexadecimal text.

use aes_gcm::aead::{Aead, AeadCore, KeyInit};
use vstd::prelude::*;
use crate::hexcode::{hex_decoded, hex_of, lemma_hex_roundtrip};
use crate::keyed::{keyed_map, lemma_keyed_map_domain, lemma_keyed_map_update, lemma_keyed_map_value, lemma_keyed_push_unique, unique_keys};
use crate::text::str_eq;

verus! {

/// The number of PBKDF2 iterations for key derivation.
pub const PBKDF2_ITERATIONS: u32 = 100_000;

/// The length of the random salt, in bytes.
pub const SALT_LEN: usize = 16;

/// The length of an AES-GCM nonce, in bytes.
pub const NONCE_LEN: usize = 12;

/// The most plaintext bytes AES-GCM encrypts (2^36).
pub const MAX_PLAINTEXT: u64 = 0x10_0000_0000;

// ───────────────────────── outside computations ─────────────────────────

/// The key PBKDF2-HMAC-SHA256 derives from the UTF-8 bytes of `password`.
pub uninterp spec fn pbkdf2_sha256(password: Seq<char>, salt: Seq<u8>, rounds: u32) -> Seq<u8>;

/// Calls `pbkdf2::pbkdf2_hmac::<sha2::Sha256>` with the UTF-8 bytes of the
/// password into a 32-byte buffer. Claimed: the result is a function of
/// password, salt and rounds (named `pbkdf2_sha256`) and fills the 32 bytes.
#[verifier::external_body]
fn derive_key(password: &str, salt: &[u8], rounds: u32) -> (k: Vec<u8>)
    ensures
        k@ == pbkdf2_sha256(password@, salt@, rounds),
        k@.len() == 32,
{
    let mut key = [0u8; 32];
    pbkdf2::pbkdf2_hmac::<sha2::Sha256>(password.as_bytes(), salt, rounds, &mut key);
    key.to_vec()
}

/// The ciphertext (with its tag) AES-256-GCM makes of `plaintext`.
pub uninterp spec fn aes256gcm_seal(key: Seq<u8>, nonce: Seq<u8>, plaintext: Seq<u8>) -> Seq<u8>;

/// The plaintext AES-256-GCM recovers from `ciphertext`, `None` when the tag
/// does not check.
pub uninterp spec fn aes256gcm_open(key: Seq<u8>, nonce: Seq<u8>, ciphertext: Seq<u8>) -> Option<Seq<u8>>;

/// Calls `Aead::encrypt` of `aes_gcm::Aes256Gcm` (no associated data).
/// Claimed, as the crate's source shows: it refuses exactly a plaintext longer
/// than 2^36 bytes; otherwise its ciphertext is a function of key, nonce and
/// plaintext (named `aes256gcm_seal`) that `Aead::decrypt` with the same key
/// and nonce turns back into the plaintext.
#[verifier::external_body]
fn aes_encrypt(key: &[u8], nonce: &[u8], plaintext: &[u8]) -> (r: Option<Vec<u8>>)
    requires
        key@.len() == 32,
        nonce@.len() == NONCE_LEN,
    ensures
        r is Some <==> plaintext@.len() <= MAX_PLAINTEXT,
        r matches Some(c) ==> c@ == aes256gcm_seal(key@, nonce@, plaintext@) && aes256gcm_open(key@, nonce@, c@)
            == Some(plaintext@),
{
    let cipher = aes_gcm::Aes256Gcm::new(aes_gcm::Key::<aes_gcm::Aes256Gcm>::from_slice(key));
    cipher.encrypt(aes_gcm::Nonce::from_slice(nonce), plaintext).ok()
}

/// Calls `Aead::decrypt` of `aes_gcm::Aes256Gcm` (no associated data).
/// Claimed: the outcome is a function of key, nonce and ciphertext, named
/// `aes256gcm_open`; which ciphertexts authenticate is not stated.
#[verifier::external_body]
fn aes_decrypt(key: &[u8], nonce: &[u8], ciphertext: &[u8]) -> (r: Option<Vec<u8>>)
    requires
        key@.len() == 32,
        nonce@.len() == NONCE_LEN,
    ensures
        match r {
            Some(p) => aes256gcm_open(key@, nonce@, ciphertext@) == Some(p@),
            None => aes256gcm_open(key@, nonce@, ciphertext@) is None,
        },
{
    let cipher = aes_gcm::Aes256Gcm::new(aes_gcm::Key::<aes_gcm::Aes256Gcm>::from_slice(key));
    cipher.decrypt(aes_gcm::Nonce::from_slice(nonce), ciphertext).ok()
}

/// Calls `hex::encode`, which writes two lower-case digits per byte.
#[verifier::external_body]
fn hex_encode(bytes: &[u8]) -> (r: String)
    ensures
        r@ == hex_of(bytes@),
{
    hex::encode(bytes)
}

/// Calls `hex::decode`, which reads pairs of digits of either case and fails on
/// an odd length or on any other character.
#[verifier::external_body]
fn hex_decode(text: &str) -> (r: Option<Vec<u8>>)
    ensures
        match r {
            Some(b) => hex_decoded(text@) == Some(b@),
            None => hex_decoded(text@) is None,
        },
{
    hex::decode(text).ok()
}

/// Fills `n` bytes from `rand::rng()` (`RngCore::fill_bytes`). Claimed: only the
/// length; the bytes are random.
#[verifier::external_body]
fn random_bytes(n: usize) -> (r: Vec<u8>)
    ensures
        r@.len() == n,
{
    let mut buf = vec![0u8; n];
    rand::RngCore::fill_bytes(&mut rand::rng(), &mut buf);
    buf
}

/// Calls `AeadCore::generate_nonce` of `aes_gcm::Aes256Gcm` with the operating
/// system's generator. Claimed: only the length; the bytes are random.
#[verifier::external_body]
fn random_nonce() -> (r: Vec<u8>)
    ensures
        r@.len() == NONCE_LEN,
{
    aes_gcm::Aes256Gcm::generate_nonce(&mut aes_gcm::aead::OsRng).to_vec()
}

/// The map of strings a JSON object of strings stands for, as
/// `serde_json::from_slice::<HashMap<String, String>>` reads it; `None` when the
/// bytes are not such an object.
pub uninterp spec fn json_string_map(bytes: Seq<u8>) -> Option<Map<Seq<char>, Seq<char>>>;

/// One entry of the vault.
#[derive(Debug)]
pub struct EnvEntry {
    pub key: String,
    pub value: String,
}

pub open spec fn entry_key() -> spec_fn((Seq<char>, Seq<char>)) -> Seq<char> {
    |e: (Seq<char>, Seq<char>)| e.0
}

pub open spec fn entry_views(v: Seq<EnvEntry>) -> Seq<(Seq<char>, Seq<char>)> {
    Seq::new(v.len(), |i: int| (v[i].key@, v[i].value@))
}

/// The map from each key to the value of its last entry.
pub open spec fn entries_map(v: Seq<EnvEntry>) -> Map<Seq<char>, Seq<char>> {
    let m = keyed_map(entry_views(v), entry_key());
    Map::new(|k: Seq<char>| m.contains_key(k), |k: Seq<char>| m[k].1)
}

/// The number of bytes `serde_json::to_vec` writes for a map of strings. The
/// bytes of each entry, and the commas between entries, do not depend on the
/// order in which the map is walked, so their total is a function of the map.
pub uninterp spec fn json_map_len(m: Map<Seq<char>, Seq<char>>) -> nat;

/// The most bytes one entry takes in a JSON object of strings: its key and
/// value, each character escaped in at most six bytes, two pairs of quotes,
/// the colon and a comma.
pub open spec fn entry_weight(e: (Seq<char>, Seq<char>)) -> nat {
    6 * e.0.len() + 6 * e.1.len() + 6
}

pub open spec fn entries_weight(s: Seq<(Seq<char>, Seq<char>)>) -> nat
    decreases s.len(),
{
    if s.len() == 0 {
        0
    } else {
        entries_weight(s.drop_last()) + entry_weight(s.last())
    }
}

/// A bound on the bytes of the JSON object of the entries: the braces and
/// every entry's weight.
pub open spec fn payload_bound_of(s: Seq<(Seq<char>, Seq<char>)>) -> nat {
    2 + entries_weight(s)
}

/// Serialises the entries with `serde_json::to_vec` of a `HashMap<&str, &str>`
/// built from them (a later entry of a key replaces an earlier one). Claimed,
/// as serde_json's source shows: serialising a map of strings into a vector
/// does not fail; `serde_json::from_slice` reads the same map back; the length
/// is `json_map_len` of the map, at most the braces plus, for each entry, its
/// key and value with every character escaped in at most six bytes
/// (`\u00XX`), two pairs of quotes, the colon and a comma. Which bytes, in
/// which order, is not stated.
#[verifier::external_body]
fn env_to_json(entries: &Vec<EnvEntry>) -> (r: Result<Vec<u8>, ()>)
    ensures
        r is Ok,
        r matches Ok(b) ==> json_string_map(b@) == Some(entries_map(entries@)),
        r matches Ok(b) ==> b@.len() == json_map_len(entries_map(entries@)),
        r matches Ok(b) ==> b@.len() <= payload_bound_of(entry_views(entries@)),
{
    let map: std::collections::HashMap<&str, &str> =
        entries.iter().map(|e| (e.key.as_str(), e.value.as_str())).collect();
    serde_json::to_vec(&map).map_err(|_| ())
}

/// Reads the bytes with `serde_json::from_slice::<HashMap<String, String>>` and
/// lists the map's entries (in the map's order). Claimed: the outcome is the
/// map named `json_string_map`, and a map holds each key once.
#[verifier::external_body]
fn env_from_json(bytes: &[u8]) -> (r: Option<Vec<EnvEntry>>)
    ensures
        r is Some <==> json_string_map(bytes@) is Some,
        r matches Some(v) ==> unique_keys(entry_views(v@), entry_key()) && Some(entries_map(v@))
            == json_string_map(bytes@),
{
    serde_json::from_slice::<std::collections::HashMap<String, String>>(bytes)
        .ok()
        .map(|m| m.into_iter().map(|(key, value)| EnvEntry { key, value }).collect())
}

// ───────────────────────── the vault ─────────────────────────

proof fn lemma_weight_update(s: Seq<(Seq<char>, Seq<char>)>, p: int, e: (Seq<char>, Seq<char>))
    requires
        0 <= p < s.len(),
    ensures
        entries_weight(s.update(p, e)) + entry_weight(s[p]) == entries_weight(s) + entry_weight(e),
    decreases s.len(),
{
    let t = s.update(p, e);
    if p == s.len() - 1 {
        assert(t.drop_last() =~= s.drop_last());
    } else {
        lemma_weight_update(s.drop_last(), p, e);
        assert(t.drop_last() =~= s.drop_last().update(p, e));
    }
}

/// Environment entries: each key at most once.
#[derive(Debug)]
pub struct EnvMap {
    entries: Vec<EnvEntry>,
}

impl EnvMap {
    #[verifier::type_invariant]
    spec fn inv(self) -> bool {
        unique_keys(entry_views(self.entries@), entry_key())
    }

    pub closed spec fn view(&self) -> Map<Seq<char>, Seq<char>> {
        entries_map(self.entries@)
    }

    /// A bound on the bytes of the map's JSON text (see `payload_bound_of`).
    pub closed spec fn payload_bound(&self) -> nat {
        payload_bound_of(entry_views(self.entries@))
    }

    pub fn new() -> (m: Self)
        ensures
            m.view() == Map::<Seq<char>, Seq<char>>::empty(),
            m.payload_bound() == 2,
    {
        let m = EnvMap { entries: Vec::new() };
        assert(entry_views(m.entries@) =~= Seq::<(Seq<char>, Seq<char>)>::empty());
        assert(m.view() =~= Map::<Seq<char>, Seq<char>>::empty());
        m
    }

    /// Sets `key` to `value`.
    pub fn insert(&mut self, key: &str, value: &str)
        ensures
            final(self).view() == old(self).view().insert(key@, value@),
            final(self).payload_bound() <= old(self).payload_bound() + entry_weight((key@, value@)),
    {
        proof {
            use_type_invariant(&*self);
        }
        let ghost before = entry_views(self.entries@);
        let mut j: usize = 0;
        let mut at: Option<usize> = None;
        while j < self.entries.len()
            invariant_except_break
                j <= self.entries@.len(),
                at is None,
                forall|k: int| 0 <= k < j ==> self.entries@[k].key@ != key@,
            ensures
                match at {
                    Some(p) => p < self.entries@.len() && self.entries@[p as int].key@ == key@,
                    None => forall|k: int| 0 <= k < self.entries@.len() ==> self.entries@[k].key@ != key@,
                },
            decreases self.entries@.len() - j,
        {
            if str_eq(self.entries[j].key.as_str(), key) {
                at = Some(j);
                break;
            }
            j = j + 1;
        }
        let entry = EnvEntry { key: key.to_owned(), value: value.to_owned() };
        let ghost ev = (key@, value@);
        match at {
            Some(p) => {
                proof {
                    lemma_keyed_map_update(before, entry_key(), p as int, ev);
                    lemma_weight_update(before, p as int, ev);
                }
                let mut entries = Vec::new();
                std::mem::swap(&mut entries, &mut self.entries);
                entries.set(p, entry);
                assert(entry_views(entries@) =~= before.update(p as int, ev));
                self.entries = entries;
            },
            None => {
                proof {
                    lemma_keyed_push_unique(before, entry_key(), ev);
                    assert(before.push(ev).drop_last() =~= before);
                }
                let mut entries = Vec::new();
                std::mem::swap(&mut entries, &mut self.entries);
                entries.push(entry);
                assert(entry_views(entries@) =~= before.push(ev));
                self.entries = entries;
            },
        }
        assert(self.view() =~= old(self).view().insert(key@, value@));
        assert(before == entry_views(old(self).entries@));
    }

    /// The value of `key`, if set.
    pub fn get(&self, key: &str) -> (r: Option<String>)
        ensures
            match r {
                Some(v) => self.view().contains_key(key@) && v@ == self.view()[key@],
                None => !self.view().contains_key(key@),
            },
    {
        proof {
            use_type_invariant(self);
        }
        let mut i: usize = 0;
        while i < self.entries.len()
            invariant
                i <= self.entries@.len(),
                unique_keys(entry_views(self.entries@), entry_key()),
                forall|k: int| 0 <= k < i ==> self.entries@[k].key@ != key@,
            decreases self.entries@.len() - i,
        {
            if str_eq(self.entries[i].key.as_str(), key) {
                proof {
                    lemma_keyed_map_value(entry_views(self.entries@), entry_key(), i as int);
                }
                return Some(self.entries[i].value.clone());
            }
            i = i + 1;
        }
        proof {
            lemma_keyed_map_domain(entry_views(self.entries@), entry_key(), key@);
        }
        None
    }

    /// The entries, each key once.
    pub fn to_entries(&self) -> (r: Vec<EnvEntry>)
        ensures
            entries_map(r@) == self.view(),
            unique_keys(entry_views(r@), entry_key()),
    {
        proof {
            use_type_invariant(self);
        }
        let mut r: Vec<EnvEntry> = Vec::new();
        let mut i: usize = 0;
        while i < self.entries.len()
            invariant
                i <= self.entries@.len(),
                r@.len() == i,
                forall|k: int| 0 <= k < i ==> #[trigger] r@[k].key@ == self.entries@[k].key@ && r@[k].value@
                    == self.entries@[k].value@,
            decreases self.entries@.len() - i,
        {
            r.push(EnvEntry { key: self.entries[i].key.clone(), value: self.entries[i].value.clone() });
            i = i + 1;
        }
        assert(entry_views(r@) =~= entry_views(self.entries@));
        r
    }

    fn from_entries(entries: Vec<EnvEntry>) -> (m: Self)
        requires
            unique_keys(entry_views(entries@), entry_key()),
        ensures
            m.view() == entries_map(entries@),
    {
        EnvMap { entries }
    }
}

/// The vault as stored: salt, nonce and ciphertext in hexadecimal.
#[derive(Debug, Clone)]
pub struct VaultFile {
    pub salt: String,
    pub nonce: String,
    pub cipher_text: String,
}

/// Why a vault operation failed.
#[derive(Debug, Clone, Copy, PartialEq, Eq, Structural)]
pub enum VaultError {
    /// `init` found a vault already in place.
    AlreadyExists,
    /// A field of the stored vault is not hexadecimal.
    BadEncoding,
    /// The ciphertext did not authenticate: wrong password or damaged vault.
    DecryptionFailed,
    /// The decrypted payload is not a JSON object of strings.
    BadPayload,
    /// The payload was too long to encrypt.
    EncryptionFailed,
}

/// The file's fields decode to a nonce of the right length, or one of them
/// does not decode.
pub open spec fn nonce_fits(salt: Seq<char>, nonce: Seq<char>, cipher_text: Seq<char>) -> bool {
    (hex_decoded(salt) is Some && hex_decoded(cipher_text) is Some && hex_decoded(nonce) is Some)
        ==> hex_decoded(nonce).unwrap().len() == NONCE_LEN
}

/// What opening a vault file with a password gives.
pub open spec fn opened(password: Seq<char>, salt: Seq<char>, nonce: Seq<char>, cipher_text: Seq<char>) -> Result<
    Map<Seq<char>, Seq<char>>,
    VaultError,
> {
    match (hex_decoded(salt), hex_decoded(nonce), hex_decoded(cipher_text)) {
        (Some(s), Some(n), Some(c)) => match aes256gcm_open(pbkdf2_sha256(password, s, PBKDF2_ITERATIONS), n, c) {
            Some(p) => match json_string_map(p) {
                Some(m) => Ok(m),
                None => Err(VaultError::BadPayload),
            },
            None => Err(VaultError::DecryptionFailed),
        },
        _ => Err(VaultError::BadEncoding),
    }
}

pub open spec fn opened_file(password: Seq<char>, f: VaultFile) -> Result<Map<Seq<char>, Seq<char>>, VaultError> {
    opened(password, f.salt@, f.nonce@, f.cipher_text@)
}

/// The file opens with the password to exactly the entries `m`.
pub open spec fn opens_to(password: Seq<char>, f: VaultFile, m: Map<Seq<char>, Seq<char>>) -> bool {
    opened_file(password, f) == Ok::<Map<Seq<char>, Seq<char>>, VaultError>(m)
}

pub open spec fn load_view(r: Result<EnvMap, VaultError>) -> Result<Map<Seq<char>, Seq<char>>, VaultError> {
    match r {
        Ok(m) => Ok(m.view()),
        Err(e) => Err(e),
    }
}

/// The entries a `set` starts from: those of the vault in place when it opens
/// with the password, none otherwise.
pub open spec fn prior_entries(password: Seq<char>, existing: Option<VaultFile>) -> Map<Seq<char>, Seq<char>> {
    match existing {
        Some(f) => match opened_file(password, f) {
            Ok(m) => m,
            Err(_) => Map::empty(),
        },
        None => Map::empty(),
    }
}

pub open spec fn existing_view(existing: Option<&VaultFile>) -> Option<VaultFile> {
    match existing {
        Some(x) => Some(*x),
        None => None,
    }
}

/// Why `set` refuses to touch the vault in place: it does not open with the password.
pub open spec fn refusal(password: Seq<char>, existing: Option<VaultFile>) -> Option<VaultError> {
    match existing {
        Some(f) => match opened_file(password, f) {
            Ok(_) => None,
            Err(e) => Some(e),
        },
        None => None,
    }
}

/// The secrets vault.
pub struct Vault;

impl Vault {
    /// The path of the vault file, `.env.vault` in the current directory.
    pub fn get_vault_path() -> (p: String)
        ensures
            p@ == ".env.vault"@,
    {
        ".env.vault".to_owned()
    }

    /// Encrypts the entries under the password with this salt and nonce.
    pub fn seal(password: &str, env: &EnvMap, salt: &[u8], nonce: &[u8]) -> (r: Result<VaultFile, VaultError>)
        requires
            nonce@.len() == NONCE_LEN,
        ensures
            r is Ok <==> json_map_len(env.view()) <= MAX_PLAINTEXT,
            env.payload_bound() <= MAX_PLAINTEXT ==> r is Ok,
            match r {
                Ok(f) => f.salt@ == hex_of(salt@) && f.nonce@ == hex_of(nonce@) && opens_to(password@, f, env.view())
                    && nonce_fits(f.salt@, f.nonce@, f.cipher_text@),
                Err(e) => e == VaultError::EncryptionFailed,
            },
    {
        proof {
            use_type_invariant(env);
        }
        let key = derive_key(password, salt, PBKDF2_ITERATIONS);
        let payload = match env_to_json(&env.entries) {
            Ok(p) => p,
            Err(_) => {
                return Err(VaultError::EncryptionFailed);
            },
        };
        let cipher_text = match aes_encrypt(key.as_slice(), nonce, payload.as_slice()) {
            Some(c) => c,
            None => {
                return Err(VaultError::EncryptionFailed);
            },
        };
        proof {
            lemma_hex_roundtrip(salt@);
            lemma_hex_roundtrip(nonce@);
            lemma_hex_roundtrip(cipher_text@);
        }
        Ok(VaultFile {
            salt: hex_encode(salt),
            nonce: hex_encode(nonce),
            cipher_text: hex_encode(cipher_text.as_slice()),
        })
    }

    /// Encrypts the entries under the password with a fresh random salt and
    /// nonce. Whatever salt and nonce were drawn, the file opens with the same
    /// password to the same entries.
    pub fn save_vault(password: &str, env: &EnvMap) -> (r: Result<VaultFile, VaultError>)
        ensures
            r is Ok <==> json_map_len(env.view()) <= MAX_PLAINTEXT,
            env.payload_bound() <= MAX_PLAINTEXT ==> r is Ok,
            match r {
                Ok(f) => opens_to(password@, f, env.view()) && nonce_fits(f.salt@, f.nonce@, f.cipher_text@),
                Err(e) => e == VaultError::EncryptionFailed,
            },
    {
        let salt = random_bytes(SALT_LEN);
        let nonce = random_nonce();
        Self::seal(password, env, salt.as_slice(), nonce.as_slice())
    }

    /// Whether the file's fields meet `load_vault`'s demand on the nonce length.
    pub fn nonce_fits(file: &VaultFile) -> (b: bool)
        ensures
            b == nonce_fits(file.salt@, file.nonce@, file.cipher_text@),
    {
        match (hex_decode(file.salt.as_str()), hex_decode(file.nonce.as_str()), hex_decode(file.cipher_text.as_str())) {
            (Some(_), Some(n), Some(_)) => n.len() == NONCE_LEN,
            _ => true,
        }
    }

    /// Decrypts a vault file with the password.
    pub fn load_vault(password: &str, file: &VaultFile) -> (r: Result<EnvMap, VaultError>)
        requires
            nonce_fits(file.salt@, file.nonce@, file.cipher_text@),
        ensures
            load_view(r) == opened_file(password@, *file),
    {
        let salt = match hex_decode(file.salt.as_str()) {
            Some(b) => b,
            None => {
                return Err(VaultError::BadEncoding);
            },
        };
        let nonce = match hex_decode(file.nonce.as_str()) {
            Some(b) => b,
            None => {
                return Err(VaultError::BadEncoding);
            },
        };
        let cipher_text = match hex_decode(file.cipher_text.as_str()) {
            Some(b) => b,
            None => {
                return Err(VaultError::BadEncoding);
            },
        };
        let key = derive_key(password, salt.as_slice(), PBKDF2_ITERATIONS);
        let plain = match aes_decrypt(key.as_slice(), nonce.as_slice(), cipher_text.as_slice()) {
            Some(p) => p,
            None => {
                return Err(VaultError::DecryptionFailed);
            },
        };
        match env_from_json(plain.as_slice()) {
            Some(entries) => Ok(EnvMap::from_entries(entries)),
            None => Err(VaultError::BadPayload),
        }
    }

    /// A new, empty vault protected by the password, unless one is in place.
    pub fn init(password: &str, vault_exists: bool) -> (r: Result<VaultFile, VaultError>)
        ensures
            vault_exists ==> r == Err::<VaultFile, VaultError>(VaultError::AlreadyExists),
            !vault_exists ==> (r matches Ok(f) && opens_to(password@, f, Map::<Seq<char>, Seq<char>>::empty())
                && nonce_fits(f.salt@, f.nonce@, f.cipher_text@)),
    {
        if vault_exists {
            return Err(VaultError::AlreadyExists);
        }
        let empty = EnvMap::new();
        Self::save_vault(password, &empty)
    }

    /// The vault with `key` set to `value`: the entries of the vault in place
    /// (none when there is none) with the one entry set, encrypted afresh. A
    /// vault in place that does not open with the password is an error, and
    /// nothing is written.
    pub fn set(password: &str, existing: Option<&VaultFile>, key: &str, value: &str) -> (r: Result<VaultFile, VaultError>)
        requires
            existing matches Some(f) ==> nonce_fits(f.salt@, f.nonce@, f.cipher_text@),
        ensures
            refusal(password@, existing_view(existing)) matches Some(e) ==> r == Err::<VaultFile, VaultError>(e),
            existing is None && 2 + entry_weight((key@, value@)) <= MAX_PLAINTEXT ==> r is Ok,
            refusal(password@, existing_view(existing)) is None ==> ({
                let m = prior_entries(password@, existing_view(existing)).insert(key@, value@);
                &&& (r is Ok <==> json_map_len(m) <= MAX_PLAINTEXT)
                &&& match r {
                    Ok(f) => opens_to(password@, f, m) && nonce_fits(f.salt@, f.nonce@, f.cipher_text@),
                    Err(e) => e == VaultError::EncryptionFailed,
                }
            }),
    {
        let mut env = match existing {
            Some(f) => match Self::load_vault(password, f) {
                Ok(m) => m,
                Err(e) => {
                    return Err(e);
                },
            },
            None => EnvMap::new(),
        };
        env.insert(key, value);
        Self::save_vault(password, &env)
    }
}

/// A vault file that `save_vault`, `init` or `set` wrote with a password
/// meets `load_vault`'s condition, and loading it with that password gives
/// back exactly the entries it was written with.
pub proof fn lemma_saved_vault_loads(password: Seq<char>, f: VaultFile, m: Map<Seq<char>, Seq<char>>)
    requires
        opens_to(password, f, m),
        nonce_fits(f.salt@, f.nonce@, f.cipher_text@),
    ensures
        nonce_fits(f.salt@, f.nonce@, f.cipher_text@),
        opened_file(password, f) == Ok::<Map<Seq<char>, Seq<char>>, VaultError>(m),
{
}

/// `set` on a vault that opens with the password keeps every other entry of
/// it and sets the key: the entries it writes are the earlier ones with the
/// key set to the value.
pub proof fn lemma_set_keeps_other_entries(
    password: Seq<char>,
    first: VaultFile,
    m: Map<Seq<char>, Seq<char>>,
    key: Seq<char>,
    value: Seq<char>,
)
    requires
        opens_to(password, first, m),
    ensures
        prior_entries(password, Some(first)).insert(key, value) == m.insert(key, value),
        forall|k: Seq<char>| k != key && m.contains_key(k) ==> #[trigger] m.insert(key, value).contains_key(k)
            && m.insert(key, value)[k] == m[k],
        m.insert(key, value)[key] == value,
{
}

} // verus!
