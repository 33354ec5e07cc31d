//! Encrypted files: the whole-file format, and the format in chunks for files of any size.
//!
//! Both derive the key from a passphrase with Argon2id and seal with AES-256-GCM.
//!
//! Whole-file: `MAGIC_V1 | salt | nonce | sealed`.
//!
//! In chunks: `MAGIC_V2 | salt | 8 reserved bytes`, then for every chunk
//! `nonce | length of what follows, 4 bytes little endian | sealed`.
use aes_gcm::aead::Aead;
use aes_gcm::aead::KeyInit;
use rand::RngCore;
use vstd::prelude::*;
use vstd::slice::{slice_subrange, slice_to_vec};
use vstd::utf8::encode_utf8;
use zeroize::Zeroize;

use crate::error::{concat, outcome, Error, ErrorView};
use crate::text::same_bytes;

verus! {

pub const SALT_LEN: usize = 16;

pub const NONCE_LEN: usize = 12;

pub const KEY_LEN: usize = 32;

/// What a sealed message holds beyond the message.
pub const TAG_LEN: usize = 16;

/// Magic, salt and nonce of the whole-file format.
pub const HEADER_LEN: usize = 36;

/// Magic, salt and reserved bytes of the format in chunks.
pub const HEADER_V2_LEN: usize = 32;

/// Nonce and length of a chunk.
pub const CHUNK_META_LEN: usize = 16;

/// How much of a file one chunk holds: 64 MiB.
pub const CHUNK_SIZE: usize = 67_108_864;

/// How much memory the derivation of a key takes, in KiB.
pub const ARGON2_MEMORY_KIB: u32 = 19_456;

/// How many passes over the memory the derivation of a key takes.
pub const ARGON2_PASSES: u32 = 2;

/// How many lanes the memory has.
pub const ARGON2_LANES: u32 = 1;

/// The longest passphrase, in bytes, that a key is derived from.
pub const MAX_PASSPHRASE_LEN: u64 = 0xffff_ffff;

/// The longest message that is sealed at once: 64 GiB.
pub const MAX_MESSAGE_LEN: u64 = 0x10_0000_0000;

/// `BDPENC1` and a zero byte.
pub open spec fn magic_v1() -> Seq<u8> {
    seq![0x42u8, 0x44, 0x50, 0x45, 0x4e, 0x43, 0x31, 0x00]
}

/// `BDPENC2` and a zero byte.
pub open spec fn magic_v2() -> Seq<u8> {
    seq![0x42u8, 0x44, 0x50, 0x45, 0x4e, 0x43, 0x32, 0x00]
}

fn magic(version: u8) -> (result: Vec<u8>)
    ensures
        version == 0x31 ==> result@ == magic_v1(),
        version == 0x32 ==> result@ == magic_v2(),
        result@.len() == 8,
{
    let result: Vec<u8> = vec![0x42, 0x44, 0x50, 0x45, 0x4e, 0x43, version, 0x00];
    assert(version == 0x31 ==> result@ =~= magic_v1());
    assert(version == 0x32 ==> result@ =~= magic_v2());
    result
}

/// What Argon2id, version 0x13, derives from a passphrase and a salt: `len` bytes, with `memory` KiB
/// of memory in `lanes` lanes and `passes` passes over it.
pub uninterp spec fn argon2id_key(
    passphrase: Seq<u8>,
    salt: Seq<u8>,
    memory: u32,
    passes: u32,
    lanes: u32,
    len: nat,
) -> Seq<u8>;

/// What AES-256-GCM makes of a message, without associated data: the ciphertext and its tag.
pub uninterp spec fn aes256gcm_sealed(key: Seq<u8>, nonce: Seq<u8>, message: Seq<u8>) -> Seq<u8>;

/// The message that AES-256-GCM finds in a sealed one, if the tag is right.
pub uninterp spec fn aes256gcm_opened(key: Seq<u8>, nonce: Seq<u8>, sealed: Seq<u8>) -> Option<
    Seq<u8>,
>;

/// `argon2::Argon2::hash_password_into` with Argon2id and version 0x13. It fails on a passphrase over
/// 4 GiB, and on no other for lengths and costs within these bounds.
#[verifier::external_body]
fn argon2id(
    passphrase: &[u8],
    salt: &[u8],
    memory: u32,
    passes: u32,
    lanes: u32,
    len: usize,
) -> (result: Result<Vec<u8>, String>)
    requires
        8 <= salt@.len() <= 64,
        1 <= lanes,
        8 * lanes <= memory <= 0x10_0000,
        1 <= passes,
        4 <= len <= 64,
    ensures
        result is Ok <==> passphrase@.len() <= MAX_PASSPHRASE_LEN,
        result matches Ok(key) ==> key@ == argon2id_key(
            passphrase@,
            salt@,
            memory,
            passes,
            lanes,
            len as nat,
        ) && key@.len() == len,
        result matches Err(text) ==> text@ == "password is too long"@,
{
    let params = argon2::Params::new(memory, passes, lanes, Some(len)).map_err(|e| e.to_string())?;
    let argon2 = argon2::Argon2::new(argon2::Algorithm::Argon2id, argon2::Version::V0x13, params);
    let mut key = vec![0_u8; len];
    argon2.hash_password_into(passphrase, salt, &mut key).map_err(|e| e.to_string())?;
    Ok(key)
}

/// `aes_gcm::Aes256Gcm::encrypt`: fails on a message over 64 GiB, and on no other. What it gives is
/// longer than the message by the tag, and opens to the message under the same key and nonce.
#[verifier::external_body]
fn aes256gcm_encrypt(key: &[u8], nonce: &[u8], message: &[u8]) -> (result: Result<Vec<u8>, String>)
    requires
        key@.len() == KEY_LEN,
        nonce@.len() == NONCE_LEN,
    ensures
        result is Ok <==> message@.len() <= MAX_MESSAGE_LEN,
        result matches Ok(sealed) ==> {
            &&& sealed@ == aes256gcm_sealed(key@, nonce@, message@)
            &&& sealed@.len() == message@.len() + TAG_LEN
            &&& aes256gcm_opened(key@, nonce@, sealed@) == Some(message@)
        },
        result matches Err(text) ==> text@ == "aead::Error"@,
{
    let cipher = aes_gcm::Aes256Gcm::new_from_slice(key).map_err(|e| e.to_string())?;
    cipher.encrypt(aes_gcm::Nonce::from_slice(nonce), message).map_err(|e| e.to_string())
}

/// `aes_gcm::Aes256Gcm::decrypt`: the message, if the tag is right.
#[verifier::external_body]
fn aes256gcm_decrypt(key: &[u8], nonce: &[u8], sealed: &[u8]) -> (result: Option<Vec<u8>>)
    requires
        key@.len() == KEY_LEN,
        nonce@.len() == NONCE_LEN,
    ensures
        match result {
            Some(message) => aes256gcm_opened(key@, nonce@, sealed@) == Some(message@),
            None => aes256gcm_opened(key@, nonce@, sealed@) is None,
        },
{
    let cipher = aes_gcm::Aes256Gcm::new_from_slice(key).ok()?;
    cipher.decrypt(aes_gcm::Nonce::from_slice(nonce), sealed).ok()
}

/// `rand::RngCore::fill_bytes` on the random number generator of the operating system: `len` bytes,
/// of which nothing else is known.
#[verifier::external_body]
fn random_bytes(len: usize) -> (result: Vec<u8>)
    ensures
        result@.len() == len,
{
    let mut bytes = vec![0_u8; len];
    rand::rngs::OsRng.fill_bytes(&mut bytes);
    bytes
}

/// `zeroize::Zeroize::zeroize` on a vector: overwrites the bytes, then empties the vector.
#[verifier::external_body]
fn wipe(bytes: &mut Vec<u8>)
    ensures
        final(bytes)@ == Seq::<u8>::empty(),
{
    bytes.zeroize();
}

/// The error of an operation on encrypted data.
pub open spec fn crypto_error(text: Seq<char>) -> ErrorView {
    ErrorView::Crypto(text)
}

/// The key for a passphrase and a salt.
pub open spec fn passphrase_key(passphrase: Seq<char>, salt: Seq<u8>) -> Seq<u8> {
    argon2id_key(
        encode_utf8(passphrase),
        salt,
        ARGON2_MEMORY_KIB,
        ARGON2_PASSES,
        ARGON2_LANES,
        KEY_LEN as nat,
    )
}

/// The key for a passphrase and a salt, or why there is none.
pub open spec fn derived_key(passphrase: Seq<char>, salt: Seq<u8>) -> Result<Seq<u8>, ErrorView> {
    if encode_utf8(passphrase).len() <= MAX_PASSPHRASE_LEN {
        Ok(passphrase_key(passphrase, salt))
    } else {
        Err(crypto_error("password is too long"@))
    }
}

/// Derives the key for a passphrase and a salt.
fn derive_key(passphrase: &str, salt: &[u8]) -> (result: Result<Vec<u8>, Error>)
    requires
        salt@.len() == SALT_LEN,
    ensures
        outcome(result) == derived_key(passphrase@, salt@),
        result matches Ok(key) ==> key@ == argon2id_key(
            encode_utf8(passphrase@),
            salt@,
            19456,
            2,
            1,
            32,
        ),
        result matches Ok(key) ==> key@.len() == KEY_LEN,
{
    match argon2id(
        passphrase.as_bytes(),
        salt,
        ARGON2_MEMORY_KIB,
        ARGON2_PASSES,
        ARGON2_LANES,
        KEY_LEN,
    ) {
        Ok(key) => Ok(key),
        Err(text) => Err(Error::Crypto(text)),
    }
}

// ── whole-file format ───────────────────────────────────────────────────────
/// The encrypted file of a message, for a salt and a nonce.
pub open spec fn v1_file(
    message: Seq<u8>,
    passphrase: Seq<char>,
    salt: Seq<u8>,
    nonce: Seq<u8>,
) -> Seq<u8> {
    magic_v1() + salt + nonce + aes256gcm_sealed(passphrase_key(passphrase, salt), nonce, message)
}

/// What sealing a message in the whole-file format comes to, for a salt and a nonce.
pub open spec fn v1_sealed(
    message: Seq<u8>,
    passphrase: Seq<char>,
    salt: Seq<u8>,
    nonce: Seq<u8>,
) -> Result<Seq<u8>, ErrorView> {
    match derived_key(passphrase, salt) {
        Err(error) => Err(error),
        Ok(_) => if message.len() > MAX_MESSAGE_LEN {
            Err(crypto_error("aead::Error"@))
        } else {
            Ok(v1_file(message, passphrase, salt, nonce))
        },
    }
}

/// What opening a file in the whole-file format comes to.
pub open spec fn v1_opened(file: Seq<u8>, passphrase: Seq<char>) -> Result<Seq<u8>, ErrorView> {
    if file.len() < HEADER_LEN || file.subrange(0, 8) != magic_v1() {
        Err(crypto_error("unsupported encrypted file format"@))
    } else {
        match derived_key(passphrase, file.subrange(8, 24)) {
            Err(error) => Err(error),
            Ok(key) => match aes256gcm_opened(
                key,
                file.subrange(24, 36),
                file.subrange(36, file.len() as int),
            ) {
                Some(message) => Ok(message),
                None => Err(crypto_error("invalid passphrase or corrupted ciphertext"@)),
            },
        }
    }
}

/// Seals `plaintext` in the whole-file format with this salt and nonce.
pub fn seal_bytes(plaintext: &[u8], passphrase: &str, salt: &[u8], nonce: &[u8]) -> (result: Result<
    Vec<u8>,
    Error,
>)
    requires
        salt@.len() == SALT_LEN,
        nonce@.len() == NONCE_LEN,
    ensures
        outcome(result) == v1_sealed(plaintext@, passphrase@, salt@, nonce@),
        result is Ok <==> encode_utf8(passphrase@).len() <= 0xffff_ffff && plaintext@.len()
            <= 0x10_0000_0000,
        result matches Ok(file) ==> file@ == seq![0x42u8, 0x44, 0x50, 0x45, 0x4e, 0x43, 0x31, 0x00]
            + salt@ + nonce@ + aes256gcm_sealed(
            argon2id_key(encode_utf8(passphrase@), salt@, 19456, 2, 1, 32),
            nonce@,
            plaintext@,
        ),
        result matches Ok(file) ==> file@.len() == HEADER_LEN + plaintext@.len() + TAG_LEN,
        result matches Ok(file) ==> v1_opened(file@, passphrase@) == Ok::<Seq<u8>, ErrorView>(
            plaintext@,
        ),
{
    let mut key = derive_key(passphrase, salt)?;
    let sealed = aes256gcm_encrypt(key.as_slice(), nonce, plaintext);
    wipe(&mut key);
    match sealed {
        Ok(mut sealed) => {
            let mut file = magic(0x31);
            let mut salt_bytes = slice_to_vec(salt);
            let mut nonce_bytes = slice_to_vec(nonce);
            file.append(&mut salt_bytes);
            file.append(&mut nonce_bytes);
            let ghost ciphertext = sealed@;
            file.append(&mut sealed);
            proof {
                assert(file@.subrange(0, 8) =~= magic_v1());
                assert(file@.subrange(8, 24) =~= salt@);
                assert(file@.subrange(24, 36) =~= nonce@);
                assert(file@.subrange(36, file@.len() as int) =~= ciphertext);
            }
            Ok(file)
        },
        Err(text) => Err(Error::Crypto(text)),
    }
}

/// Encrypts `plaintext` in the whole-file format, with a salt and a nonce of its own.
///
/// What it gives decrypts to `plaintext` under the same passphrase.
pub fn encrypt_bytes(plaintext: &[u8], passphrase: &str) -> (result: Result<Vec<u8>, Error>)
    ensures
        exists|salt: Seq<u8>, nonce: Seq<u8>|
            #![trigger v1_sealed(plaintext@, passphrase@, salt, nonce)]
            salt.len() == SALT_LEN && nonce.len() == NONCE_LEN && outcome(result) == v1_sealed(
                plaintext@,
                passphrase@,
                salt,
                nonce,
            ),
        result is Ok <==> encode_utf8(passphrase@).len() <= MAX_PASSPHRASE_LEN && plaintext@.len()
            <= MAX_MESSAGE_LEN,
        result matches Ok(file) ==> file@.subrange(36, file@.len() as int) == aes256gcm_sealed(
            argon2id_key(encode_utf8(passphrase@), file@.subrange(8, 24), 19456, 2, 1, 32),
            file@.subrange(24, 36),
            plaintext@,
        ),
        result matches Ok(file) ==> file@.len() == HEADER_LEN + plaintext@.len() + TAG_LEN,
        result matches Ok(file) ==> v1_opened(file@, passphrase@) == Ok::<Seq<u8>, ErrorView>(
            plaintext@,
        ),
{
    let salt = random_bytes(SALT_LEN);
    let nonce = random_bytes(NONCE_LEN);
    let result = seal_bytes(plaintext, passphrase, salt.as_slice(), nonce.as_slice());
    assert(outcome(result) == v1_sealed(plaintext@, passphrase@, salt@, nonce@));
    proof {
        if result is Ok {
            let file = result->Ok_0;
            assert(file@.subrange(8, 24) =~= salt@);
            assert(file@.subrange(24, 36) =~= nonce@);
            assert(file@.subrange(36, file@.len() as int) =~= aes256gcm_sealed(
                argon2id_key(encode_utf8(passphrase@), salt@, 19456, 2, 1, 32),
                nonce@,
                plaintext@,
            ));
        }
    }
    result
}

/// Decrypts a file in the whole-file format.
pub fn decrypt_bytes(ciphertext: &[u8], passphrase: &str) -> (result: Result<Vec<u8>, Error>)
    ensures
        outcome(result) == v1_opened(ciphertext@, passphrase@),
        ciphertext@.len() >= 36 && ciphertext@.subrange(0, 8) == magic_v1() && encode_utf8(
            passphrase@,
        ).len() <= 0xffff_ffff ==> outcome(result) == (match aes256gcm_opened(
            argon2id_key(encode_utf8(passphrase@), ciphertext@.subrange(8, 24), 19456, 2, 1, 32),
            ciphertext@.subrange(24, 36),
            ciphertext@.subrange(36, ciphertext@.len() as int),
        ) {
            Some(message) => Ok::<Seq<u8>, ErrorView>(message),
            None => Err(ErrorView::Crypto("invalid passphrase or corrupted ciphertext"@)),
        }),
{
    let unsupported = ciphertext.len() < HEADER_LEN || !same_bytes(
        slice_subrange(ciphertext, 0, 8),
        magic(0x31).as_slice(),
    );
    if unsupported {
        return Err(Error::Crypto("unsupported encrypted file format".to_owned()));
    }
    let mut key = derive_key(passphrase, slice_subrange(ciphertext, 8, 24))?;
    let opened = aes256gcm_decrypt(
        key.as_slice(),
        slice_subrange(ciphertext, 24, 36),
        slice_subrange(ciphertext, 36, ciphertext.len()),
    );
    wipe(&mut key);
    match opened {
        Some(message) => Ok(message),
        None => Err(Error::Crypto("invalid passphrase or corrupted ciphertext".to_owned())),
    }
}

// ── format in chunks: what a file means ─────────────────────────────────────
/// A length below 2^32 as four bytes, the least significant first.
pub open spec fn le32(n: nat) -> Seq<u8> {
    seq![
        (n % 256) as u8,
        (n / 256 % 256) as u8,
        (n / 65536 % 256) as u8,
        (n / 16777216 % 256) as u8,
    ]
}

/// The length that four bytes stand for.
pub open spec fn from_le32(bytes: Seq<u8>) -> nat {
    (bytes[0] + 256 * bytes[1] + 65536 * bytes[2] + 16777216 * bytes[3]) as nat
}

proof fn lemma_le32(n: nat)
    requires
        n < 0x1_0000_0000,
    ensures
        le32(n).len() == 4,
        from_le32(le32(n)) == n,
{
}

/// What a reader says when a file ends before all that it wants is there.
pub open spec fn short_read() -> Seq<char> {
    "failed to fill whole buffer"@
}

/// `head` before what `rest` comes to.
pub open spec fn prepend(head: Seq<u8>, rest: Result<Seq<u8>, ErrorView>) -> Result<
    Seq<u8>,
    ErrorView,
> {
    match rest {
        Ok(tail) => Ok(head + tail),
        Err(error) => Err(error),
    }
}

/// What opening a file in chunks comes to.
pub open spec fn v2_opened(file: Seq<u8>, passphrase: Seq<char>) -> Result<Seq<u8>, ErrorView> {
    if file.len() < 8 {
        Err(crypto_error("file too short for V2 encrypted format"@))
    } else if file.subrange(0, 8) != magic_v2() {
        Err(crypto_error("not a V2 encrypted file"@))
    } else {
        v2_after_magic(passphrase, file.subrange(8, file.len() as int))
    }
}

/// What the part of a file behind the magic comes to.
pub open spec fn v2_after_magic(passphrase: Seq<char>, data: Seq<u8>) -> Result<
    Seq<u8>,
    ErrorView,
> {
    if data.len() < SALT_LEN {
        Err(crypto_error("failed to read V2 salt: "@ + short_read()))
    } else {
        v2_after_salt(passphrase, data.subrange(0, 16), data.subrange(16, data.len() as int))
    }
}

/// What the part of a file behind the salt comes to.
pub open spec fn v2_after_salt(passphrase: Seq<char>, salt: Seq<u8>, data: Seq<u8>) -> Result<
    Seq<u8>,
    ErrorView,
> {
    if data.len() < 8 {
        Err(crypto_error("failed to read V2 reserved: "@ + short_read()))
    } else {
        match derived_key(passphrase, salt) {
            Ok(key) => v2_body(key, data.subrange(8, data.len() as int)),
            Err(error) => Err(error),
        }
    }
}

/// What the chunks of a file come to. Fewer bytes than a nonce has end the file.
pub open spec fn v2_body(key: Seq<u8>, data: Seq<u8>) -> Result<Seq<u8>, ErrorView>
    decreases data.len(), 0nat,
{
    if data.len() < NONCE_LEN {
        Ok(Seq::empty())
    } else {
        v2_after_nonce(key, data.subrange(0, 12), data.subrange(12, data.len() as int))
    }
}

/// What the chunks of a file come to, seen from behind the nonce of one.
pub open spec fn v2_after_nonce(key: Seq<u8>, nonce: Seq<u8>, data: Seq<u8>) -> Result<
    Seq<u8>,
    ErrorView,
>
    decreases data.len(), 2nat,
{
    if data.len() < 4 {
        Err(crypto_error("failed to read chunk length: "@ + short_read()))
    } else {
        v2_after_length(
            key,
            nonce,
            from_le32(data.subrange(0, 4)),
            data.subrange(4, data.len() as int),
        )
    }
}

/// What the chunks of a file come to, seen from behind the length of one.
pub open spec fn v2_after_length(
    key: Seq<u8>,
    nonce: Seq<u8>,
    len: nat,
    data: Seq<u8>,
) -> Result<Seq<u8>, ErrorView>
    decreases data.len(), 1nat,
{
    if data.len() < len {
        Err(crypto_error("failed to read chunk payload: "@ + short_read()))
    } else {
        match aes256gcm_opened(key, nonce, data.subrange(0, len as int)) {
            Some(message) => prepend(
                message,
                v2_body(key, data.subrange(len as int, data.len() as int)),
            ),
            None => Err(crypto_error("invalid passphrase or corrupted ciphertext"@)),
        }
    }
}

// ── format in chunks: decryption ────────────────────────────────────────────
/// What a [`StreamDecryptor`] reads next.
#[derive(Clone, Copy, Debug, PartialEq, Eq, Structural)]
pub enum DecryptStage {
    Magic,
    Salt,
    Reserved,
    Nonce,
    Length,
    Payload,
}

/// Decrypts a file in chunks, one read at a time.
///
/// The caller reads [`StreamDecryptor::wanted`] bytes and hands them to
/// [`StreamDecryptor::accept`], or says through [`StreamDecryptor::unfilled`] that they could not be
/// read.
pub struct StreamDecryptor {
    pub passphrase: String,
    pub stage: DecryptStage,
    pub salt: Vec<u8>,
    pub key: Vec<u8>,
    pub nonce: Vec<u8>,
    pub payload_len: usize,
}

/// What fails where a read at this stage fails.
pub open spec fn stage_failure(stage: DecryptStage, reason: Seq<char>) -> ErrorView {
    crypto_error(
        match stage {
            DecryptStage::Magic => "file too short for V2 encrypted format"@,
            DecryptStage::Salt => "failed to read V2 salt: "@ + reason,
            DecryptStage::Reserved => "failed to read V2 reserved: "@ + reason,
            DecryptStage::Nonce => "failed to read chunk nonce: "@ + reason,
            DecryptStage::Length => "failed to read chunk length: "@ + reason,
            DecryptStage::Payload => "failed to read chunk payload: "@ + reason,
        },
    )
}

impl StreamDecryptor {
    /// What is known at each stage has its length.
    pub open spec fn wf(&self) -> bool {
        match self.stage {
            DecryptStage::Magic | DecryptStage::Salt => true,
            DecryptStage::Reserved => self.salt@.len() == SALT_LEN,
            DecryptStage::Nonce => self.key@.len() == KEY_LEN,
            DecryptStage::Length | DecryptStage::Payload => self.key@.len() == KEY_LEN
                && self.nonce@.len() == NONCE_LEN,
        }
    }

    /// How many bytes the next read takes.
    pub open spec fn wanted_len(&self) -> nat {
        match self.stage {
            DecryptStage::Magic => 8,
            DecryptStage::Salt => 16,
            DecryptStage::Reserved => 8,
            DecryptStage::Nonce => 12,
            DecryptStage::Length => 4,
            DecryptStage::Payload => self.payload_len as nat,
        }
    }

    /// What the rest of the file comes to.
    pub open spec fn meaning(&self, data: Seq<u8>) -> Result<Seq<u8>, ErrorView> {
        match self.stage {
            DecryptStage::Magic => v2_opened(data, self.passphrase@),
            DecryptStage::Salt => v2_after_magic(self.passphrase@, data),
            DecryptStage::Reserved => v2_after_salt(self.passphrase@, self.salt@, data),
            DecryptStage::Nonce => v2_body(self.key@, data),
            DecryptStage::Length => v2_after_nonce(self.key@, self.nonce@, data),
            DecryptStage::Payload => v2_after_length(
                self.key@,
                self.nonce@,
                self.payload_len as nat,
                data,
            ),
        }
    }

    /// A decryptor at the start of a file.
    pub fn new(passphrase: &str) -> (result: StreamDecryptor)
        ensures
            result.wf(),
            result.stage == DecryptStage::Magic,
            forall|file: Seq<u8>| #[trigger]
                result.meaning(file) == v2_opened(file, passphrase@),
    {
        StreamDecryptor {
            passphrase: passphrase.to_owned(),
            stage: DecryptStage::Magic,
            salt: Vec::new(),
            key: Vec::new(),
            nonce: Vec::new(),
            payload_len: 0,
        }
    }

    /// How many bytes the next read takes.
    pub fn wanted(&self) -> (result: usize)
        ensures
            result == self.wanted_len(),
    {
        match self.stage {
            DecryptStage::Magic => 8,
            DecryptStage::Salt => 16,
            DecryptStage::Reserved => 8,
            DecryptStage::Nonce => 12,
            DecryptStage::Length => 4,
            DecryptStage::Payload => self.payload_len,
        }
    }

    /// Takes the bytes of one read, and gives the plaintext that they complete.
    ///
    /// Whatever follows in the file, this plaintext and what the rest then comes to are what the
    /// whole came to before. After an error the decryptor is spent.
    pub fn accept(&mut self, bytes: &[u8]) -> (result: Result<Vec<u8>, Error>)
        requires
            old(self).wf(),
            bytes@.len() == old(self).wanted_len(),
        ensures
            result is Ok ==> final(self).wf(),
            final(self).stage == DecryptStage::Payload || old(self).stage != DecryptStage::Length
                || result is Err,
            old(self).stage == DecryptStage::Payload ==> final(self).stage != DecryptStage::Payload,
            forall|rest: Seq<u8>| #[trigger]
                old(self).meaning(bytes@ + rest) == match result {
                    Ok(plaintext) => prepend(plaintext@, final(self).meaning(rest)),
                    Err(error) => Err(error@),
                },
    {
        proof {
            assert forall|rest: Seq<u8>| #![auto] (bytes@ + rest).subrange(
                0,
                bytes@.len() as int,
            ) =~= bytes@ by {}
            assert forall|rest: Seq<u8>| #![auto] (bytes@ + rest).subrange(
                bytes@.len() as int,
                (bytes@ + rest).len() as int,
            ) =~= rest by {}
        }
        let ghost before = *self;
        match self.stage {
            DecryptStage::Magic => {
                if !same_bytes(bytes, magic(0x32).as_slice()) {
                    return Err(Error::Crypto("not a V2 encrypted file".to_owned()));
                }
                self.stage = DecryptStage::Salt;
            },
            DecryptStage::Salt => {
                self.salt = slice_to_vec(bytes);
                self.stage = DecryptStage::Reserved;
            },
            DecryptStage::Reserved => {
                match derive_key(self.passphrase.as_str(), self.salt.as_slice()) {
                    Ok(key) => {
                        self.key = key;
                    },
                    Err(error) => {
                        return Err(error);
                    },
                }
                self.stage = DecryptStage::Nonce;
            },
            DecryptStage::Nonce => {
                self.nonce = slice_to_vec(bytes);
                self.stage = DecryptStage::Length;
            },
            DecryptStage::Length => {
                self.payload_len = bytes[0] as usize + 256 * bytes[1] as usize + 65536
                    * bytes[2] as usize + 16777216 * bytes[3] as usize;
                self.stage = DecryptStage::Payload;
            },
            DecryptStage::Payload => {
                let opened = aes256gcm_decrypt(self.key.as_slice(), self.nonce.as_slice(), bytes);
                self.stage = DecryptStage::Nonce;
                return match opened {
                    Some(plaintext) => Ok(plaintext),
                    None => {
                        wipe(&mut self.key);
                        Err(Error::Crypto("invalid passphrase or corrupted ciphertext".to_owned()))
                    },
                };
            },
        }
        let nothing: Vec<u8> = Vec::new();
        proof {
            assert forall|rest: Seq<u8>| #[trigger]
                before.meaning(bytes@ + rest) == prepend(nothing@, self.meaning(rest)) by {
                assert(before.meaning(bytes@ + rest) == self.meaning(rest));
                if let Ok(tail) = self.meaning(rest) {
                    assert(nothing@ + tail =~= tail);
                }
            }
        }
        Ok(nothing)
    }

    /// Says what it means that the next read was not filled: at the end of the file between two
    /// chunks that decryption is complete, anywhere else that it failed.
    pub fn unfilled(&self, end_of_file: bool, reason: &str) -> (result: Result<(), Error>)
        ensures
            outcome(result) == (if self.stage == DecryptStage::Nonce && end_of_file {
                Ok::<(), ErrorView>(())
            } else {
                Err(stage_failure(self.stage, reason@))
            }),
    {
        match self.stage {
            DecryptStage::Magic => Err(
                Error::Crypto("file too short for V2 encrypted format".to_owned()),
            ),
            DecryptStage::Salt => Err(Error::Crypto(concat("failed to read V2 salt: ", reason))),
            DecryptStage::Reserved => Err(
                Error::Crypto(concat("failed to read V2 reserved: ", reason)),
            ),
            DecryptStage::Nonce => if end_of_file {
                Ok(())
            } else {
                Err(Error::Crypto(concat("failed to read chunk nonce: ", reason)))
            },
            DecryptStage::Length => Err(
                Error::Crypto(concat("failed to read chunk length: ", reason)),
            ),
            DecryptStage::Payload => Err(
                Error::Crypto(concat("failed to read chunk payload: ", reason)),
            ),
        }
    }

    /// Ends the work with the key, which is overwritten.
    pub fn close(&mut self)
        ensures
            final(self).key@.len() == 0,
    {
        wipe(&mut self.key);
    }
}

/// A file that ends before the next read is filled means what [`StreamDecryptor::unfilled`] says of
/// its end.
pub proof fn lemma_unfilled(decryptor: StreamDecryptor, data: Seq<u8>)
    requires
        data.len() < decryptor.wanted_len(),
    ensures
        decryptor.meaning(data) == (if decryptor.stage == DecryptStage::Nonce {
            Ok::<Seq<u8>, ErrorView>(Seq::empty())
        } else {
            Err(stage_failure(decryptor.stage, short_read()))
        }),
{
}

/// A file with a header means what its chunks mean under the key of the passphrase and the salt.
proof fn lemma_v2_opened(file: Seq<u8>, passphrase: Seq<char>)
    requires
        file.len() >= 32,
        file.subrange(0, 8) == magic_v2(),
        encode_utf8(passphrase).len() <= 0xffff_ffff,
    ensures
        v2_opened(file, passphrase) == v2_body(
            argon2id_key(encode_utf8(passphrase), file.subrange(8, 24), 19456, 2, 1, 32),
            file.subrange(32, file.len() as int),
        ),
{
    let behind_magic = file.subrange(8, file.len() as int);
    let behind_salt = behind_magic.subrange(16, behind_magic.len() as int);
    assert(behind_magic.subrange(0, 16) =~= file.subrange(8, 24));
    assert(behind_salt.subrange(8, behind_salt.len() as int) =~= file.subrange(
        32,
        file.len() as int,
    ));
}

/// Decrypts a file in chunks.
pub fn decrypt_file_streaming(source: &[u8], passphrase: &str) -> (result: Result<Vec<u8>, Error>)
    ensures
        outcome(result) == v2_opened(source@, passphrase@),
        source@.len() >= 32 && source@.subrange(0, 8) == magic_v2() && encode_utf8(
            passphrase@,
        ).len() <= 0xffff_ffff ==> outcome(result) == v2_body(
            argon2id_key(encode_utf8(passphrase@), source@.subrange(8, 24), 19456, 2, 1, 32),
            source@.subrange(32, source@.len() as int),
        ),
{
    let mut decryptor = StreamDecryptor::new(passphrase);
    let mut plaintext: Vec<u8> = Vec::new();
    let mut at: usize = 0;
    proof {
        assert(source@.subrange(0, source@.len() as int) =~= source@);
        if let Ok(tail) = v2_opened(source@, passphrase@) {
            assert(plaintext@ + tail =~= tail);
        }
    }
    while source.len() - at >= decryptor.wanted()
        invariant
            decryptor.wf(),
            at <= source@.len(),
            v2_opened(source@, passphrase@) == prepend(
                plaintext@,
                decryptor.meaning(source@.subrange(at as int, source@.len() as int)),
            ),
        decreases
                source@.len() - at,
                (if decryptor.stage == DecryptStage::Payload {
                    1nat
                } else {
                    0nat
                }),
    {
        let end = at + decryptor.wanted();
        let bytes = slice_subrange(source, at, end);
        let ghost rest = source@.subrange(end as int, source@.len() as int);
        assert(source@.subrange(at as int, source@.len() as int) =~= bytes@ + rest);
        let mut piece = match decryptor.accept(bytes) {
            Ok(piece) => piece,
            Err(error) => {
                decryptor.close();
                proof {
                    if source@.len() >= 32 && source@.subrange(0, 8) == magic_v2() && encode_utf8(
                        passphrase@,
                    ).len() <= 0xffff_ffff {
                        lemma_v2_opened(source@, passphrase@);
                    }
                }
                return Err(error);
            },
        };
        let ghost before = plaintext@;
        let ghost added = piece@;
        plaintext.append(&mut piece);
        proof {
            if let Ok(tail) = decryptor.meaning(rest) {
                assert(before + (added + tail) =~= (before + added) + tail);
            }
        }
        at = end;
    }
    proof {
        lemma_unfilled(decryptor, source@.subrange(at as int, source@.len() as int));
        assert(plaintext@ + Seq::<u8>::empty() =~= plaintext@);
        if source@.len() >= 32 && source@.subrange(0, 8) == magic_v2() && encode_utf8(
            passphrase@,
        ).len() <= 0xffff_ffff {
            lemma_v2_opened(source@, passphrase@);
        }
    }
    let end = decryptor.unfilled(true, "failed to fill whole buffer");
    decryptor.close();
    match end {
        Ok(()) => Ok(plaintext),
        Err(error) => Err(error),
    }
}

// ── format in chunks: encryption ────────────────────────────────────────────
/// What a file in chunks begins with.
pub open spec fn v2_header(salt: Seq<u8>) -> Seq<u8> {
    magic_v2() + salt + seq![0u8, 0, 0, 0, 0, 0, 0, 0]
}

/// One chunk of a file.
pub open spec fn v2_chunk(key: Seq<u8>, nonce: Seq<u8>, message: Seq<u8>) -> Seq<u8> {
    nonce + le32((message.len() + TAG_LEN) as nat) + aes256gcm_sealed(key, nonce, message)
}

/// The smaller of two numbers.
pub open spec fn lesser(a: int, b: int) -> int {
    if a < b {
        a
    } else {
        b
    }
}

/// The part of a file that its `i`th chunk holds.
pub open spec fn chunk_content(content: Seq<u8>, i: int) -> Seq<u8> {
    content.subrange(i * CHUNK_SIZE, lesser((i + 1) * CHUNK_SIZE, content.len() as int))
}

/// Each chunk of a file holds some of it, 64 MiB at most, and seals it with a tag behind it.
pub open spec fn chunks_are_sized(key: Seq<u8>, content: Seq<u8>, nonces: Seq<Seq<u8>>) -> bool {
    forall|i: int|
        0 <= i < nonces.len() ==> {
            &&& 1 <= chunk_content(content, i).len() <= CHUNK_SIZE
            &&& aes256gcm_sealed(key, #[trigger] nonces[i], chunk_content(content, i)).len()
                == chunk_content(content, i).len() + TAG_LEN
        }
}

/// How many chunks hold a file of this length.
pub open spec fn chunk_count(len: nat) -> nat {
    ((len + CHUNK_SIZE - 1) / CHUNK_SIZE as int) as nat
}

/// The first `count` chunks of a file, the `i`th sealed with the `i`th nonce.
pub open spec fn v2_chunks(key: Seq<u8>, content: Seq<u8>, nonces: Seq<Seq<u8>>, count: nat) -> Seq<
    u8,
>
    decreases count,
{
    if count == 0 {
        Seq::empty()
    } else {
        v2_chunks(key, content, nonces, (count - 1) as nat) + v2_chunk(
            key,
            nonces[count - 1],
            chunk_content(content, count - 1),
        )
    }
}

/// The encrypted file of a content, for a salt and a nonce for each chunk.
pub open spec fn v2_file(
    content: Seq<u8>,
    passphrase: Seq<char>,
    salt: Seq<u8>,
    nonces: Seq<Seq<u8>>,
) -> Seq<u8> {
    v2_header(salt) + v2_chunks(
        passphrase_key(passphrase, salt),
        content,
        nonces,
        chunk_count(content.len()),
    )
}

proof fn lemma_v2_chunks_nonces(
    key: Seq<u8>,
    content: Seq<u8>,
    nonces: Seq<Seq<u8>>,
    nonce: Seq<u8>,
    count: nat,
)
    requires
        count <= nonces.len(),
    ensures
        v2_chunks(key, content, nonces.push(nonce), count) == v2_chunks(
            key,
            content,
            nonces,
            count,
        ),
    decreases count,
{
    if count > 0 {
        lemma_v2_chunks_nonces(key, content, nonces, nonce, (count - 1) as nat);
    }
}

/// A chunk in front of the rest of a file means its message in front of what the rest means.
proof fn lemma_v2_chunk(key: Seq<u8>, nonce: Seq<u8>, message: Seq<u8>, rest: Seq<u8>)
    requires
        nonce.len() == NONCE_LEN,
        message.len() + TAG_LEN < 0x1_0000_0000,
        aes256gcm_sealed(key, nonce, message).len() == message.len() + TAG_LEN,
        aes256gcm_opened(key, nonce, aes256gcm_sealed(key, nonce, message)) == Some(message),
    ensures
        v2_body(key, v2_chunk(key, nonce, message) + rest) == prepend(message, v2_body(key, rest)),
{
    let sealed = aes256gcm_sealed(key, nonce, message);
    let len = le32(sealed.len());
    let data = v2_chunk(key, nonce, message) + rest;
    let behind_nonce = data.subrange(12, data.len() as int);
    let behind_length = behind_nonce.subrange(4, behind_nonce.len() as int);
    lemma_le32(sealed.len());
    assert(data.subrange(0, 12) =~= nonce);
    assert(behind_nonce =~= len + sealed + rest);
    assert(behind_nonce.subrange(0, 4) =~= len);
    assert(behind_length =~= sealed + rest);
    assert(behind_length.subrange(0, sealed.len() as int) =~= sealed);
    assert(behind_length.subrange(sealed.len() as int, behind_length.len() as int) =~= rest);
    assert(v2_body(key, data) == v2_after_nonce(key, nonce, behind_nonce));
    assert(v2_after_nonce(key, nonce, behind_nonce) == v2_after_length(
        key,
        nonce,
        sealed.len(),
        behind_length,
    ));
}

/// A header in front of the rest of a file means what the rest means under the key of its salt.
pub proof fn lemma_v2_header(passphrase: Seq<char>, salt: Seq<u8>, rest: Seq<u8>)
    requires
        salt.len() == SALT_LEN,
    ensures
        v2_opened(v2_header(salt) + rest, passphrase) == match derived_key(passphrase, salt) {
            Ok(key) => v2_body(key, rest),
            Err(error) => Err(error),
        },
{
    let file = v2_header(salt) + rest;
    let behind_magic = file.subrange(8, file.len() as int);
    let behind_salt = behind_magic.subrange(16, behind_magic.len() as int);
    assert(file.subrange(0, 8) =~= magic_v2());
    assert(behind_magic.subrange(0, 16) =~= salt);
    assert(behind_salt.subrange(8, behind_salt.len() as int) =~= rest);
}

/// A file that holds the content up to `at`, with a chunk of the content up to `end` behind it,
/// holds the content up to `end`.
proof fn lemma_v2_step(
    passphrase: Seq<char>,
    key: Seq<u8>,
    content: Seq<u8>,
    at: int,
    end: int,
    file: Seq<u8>,
    chunk: Seq<u8>,
)
    requires
        0 <= at <= end <= content.len(),
        forall|rest: Seq<u8>|
            v2_opened(file + rest, passphrase) == prepend(
                content.subrange(0, at),
                #[trigger] v2_body(key, rest),
            ),
        forall|rest: Seq<u8>| #[trigger]
            v2_body(key, chunk + rest) == prepend(content.subrange(at, end), v2_body(key, rest)),
    ensures
        forall|rest: Seq<u8>|
            v2_opened((file + chunk) + rest, passphrase) == prepend(
                content.subrange(0, end),
                #[trigger] v2_body(key, rest),
            ),
{
    assert forall|rest: Seq<u8>|
        v2_opened((file + chunk) + rest, passphrase) == prepend(
            content.subrange(0, end),
            #[trigger] v2_body(key, rest),
        ) by {
        let body = v2_body(key, rest);
        assert((file + chunk) + rest =~= file + (chunk + rest));
        assert(v2_body(key, chunk + rest) == prepend(content.subrange(at, end), body));
        if let Ok(tail) = body {
            assert(content.subrange(0, at) + (content.subrange(at, end) + tail)
                =~= content.subrange(0, end) + tail);
        }
    }
}

/// Encrypts a file in chunks: first [`StreamEncryptor::begin`], which gives the header, then
/// [`StreamEncryptor::seal`] on one part of the file after the other.
pub struct StreamEncryptor {
    pub key: Vec<u8>,
}

impl StreamEncryptor {
    pub open spec fn wf(&self) -> bool {
        self.key@.len() == KEY_LEN
    }

    /// An encryptor and the header of its file, for this salt.
    pub fn with_salt(passphrase: &str, salt: &[u8]) -> (result: Result<
        (StreamEncryptor, Vec<u8>),
        Error,
    >)
        requires
            salt@.len() == SALT_LEN,
        ensures
            match derived_key(passphrase@, salt@) {
                Ok(key) => result matches Ok((encryptor, header)) && encryptor.wf()
                    && encryptor.key@ == key && header@ == v2_header(salt@),
                Err(error) => result matches Err(e) && e@ == error,
            },
            result matches Ok((encryptor, header)) ==> encryptor.key@ == argon2id_key(
                encode_utf8(passphrase@),
                salt@,
                19456,
                2,
                1,
                32,
            ) && header@ == seq![0x42u8, 0x44, 0x50, 0x45, 0x4e, 0x43, 0x32, 0x00] + salt@ + seq![
                0u8,
                0,
                0,
                0,
                0,
                0,
                0,
                0,
            ],
    {
        let key = derive_key(passphrase, salt)?;
        let mut header = magic(0x32);
        let mut salt_bytes = slice_to_vec(salt);
        let mut reserved: Vec<u8> = vec![0, 0, 0, 0, 0, 0, 0, 0];
        header.append(&mut salt_bytes);
        assert(reserved@ =~= seq![0u8, 0, 0, 0, 0, 0, 0, 0]);
        header.append(&mut reserved);
        Ok((StreamEncryptor { key }, header))
    }

    /// An encryptor and the header of its file, for a salt of its own.
    pub fn begin(passphrase: &str) -> (result: Result<(StreamEncryptor, Vec<u8>), Error>)
        ensures
            exists|salt: Seq<u8>|
                #![trigger v2_header(salt)]
                salt.len() == SALT_LEN && match derived_key(passphrase@, salt) {
                    Ok(key) => result matches Ok((encryptor, header)) && encryptor.wf()
                        && encryptor.key@ == key && header@ == v2_header(salt),
                    Err(error) => result matches Err(e) && e@ == error,
                },
            result is Ok <==> encode_utf8(passphrase@).len() <= MAX_PASSPHRASE_LEN,
            result matches Ok((encryptor, header)) ==> header@.len() == 32 && encryptor.key@
                == argon2id_key(
                encode_utf8(passphrase@),
                header@.subrange(8, 24),
                19456,
                2,
                1,
                32,
            ),
    {
        let salt = random_bytes(SALT_LEN);
        let result = StreamEncryptor::with_salt(passphrase, salt.as_slice());
        assert(v2_header(salt@).len() == HEADER_V2_LEN);
        assert(v2_header(salt@).subrange(8, 24) =~= salt@);
        result
    }

    /// The chunk of `content`, for this nonce.
    pub fn seal_with(&self, nonce: &[u8], content: &[u8]) -> (result: Result<Vec<u8>, Error>)
        requires
            self.wf(),
            nonce@.len() == NONCE_LEN,
            content@.len() <= CHUNK_SIZE,
        ensures
            outcome(result) == Ok::<Seq<u8>, ErrorView>(v2_chunk(self.key@, nonce@, content@)),
            result matches Ok(chunk) ==> ({
                let len = (content@.len() + 16) as int;
                chunk@ == nonce@ + seq![
                    (len % 0x100) as u8,
                    (len / 0x100 % 0x100) as u8,
                    (len / 0x1_0000 % 0x100) as u8,
                    (len / 0x100_0000) as u8,
                ] + aes256gcm_sealed(self.key@, nonce@, content@)
            }),
            result matches Ok(chunk) ==> chunk@.len() == CHUNK_META_LEN + content@.len() + TAG_LEN,
            result matches Ok(chunk) ==> forall|rest: Seq<u8>| #[trigger]
                v2_body(self.key@, chunk@ + rest) == prepend(content@, v2_body(self.key@, rest)),
    {
        match aes256gcm_encrypt(self.key.as_slice(), nonce, content) {
            Ok(mut sealed) => {
                let len = sealed.len();
                let mut length: Vec<u8> = vec![
                    (len % 256) as u8,
                    (len / 256 % 256) as u8,
                    (len / 65536 % 256) as u8,
                    (len / 16777216 % 256) as u8,
                ];
                assert(length@ =~= le32(len as nat));
                let mut chunk = slice_to_vec(nonce);
                chunk.append(&mut length);
                chunk.append(&mut sealed);
                proof {
                    assert forall|rest: Seq<u8>| #[trigger]
                        v2_body(self.key@, chunk@ + rest) == prepend(
                            content@,
                            v2_body(self.key@, rest),
                        ) by {
                        lemma_v2_chunk(self.key@, nonce@, content@, rest);
                    }
                }
                Ok(chunk)
            },
            Err(text) => Err(Error::Crypto(text)),
        }
    }

    /// The chunk of `content`, for a nonce of its own.
    pub fn seal(&self, content: &[u8]) -> (result: Result<Vec<u8>, Error>)
        requires
            self.wf(),
            content@.len() <= CHUNK_SIZE,
        ensures
            exists|nonce: Seq<u8>|
                #![trigger v2_chunk(self.key@, nonce, content@)]
                nonce.len() == NONCE_LEN && outcome(result) == Ok::<Seq<u8>, ErrorView>(
                    v2_chunk(self.key@, nonce, content@),
                ),
            result matches Ok(chunk) ==> chunk@.len() == CHUNK_META_LEN + content@.len() + TAG_LEN,
            result matches Ok(chunk) ==> forall|rest: Seq<u8>| #[trigger]
                v2_body(self.key@, chunk@ + rest) == prepend(content@, v2_body(self.key@, rest)),
    {
        let nonce = random_bytes(NONCE_LEN);
        self.seal_with(nonce.as_slice(), content)
    }

    /// Ends the work with the key, which is overwritten.
    pub fn close(&mut self)
        ensures
            final(self).key@.len() == 0,
    {
        wipe(&mut self.key);
    }
}

/// Encrypts a file in chunks.
///
/// What it gives decrypts to `source` under the same passphrase.
pub fn encrypt_file_streaming(source: &[u8], passphrase: &str) -> (result: Result<Vec<u8>, Error>)
    ensures
        result is Ok <==> encode_utf8(passphrase@).len() <= MAX_PASSPHRASE_LEN,
        result matches Err(error) ==> error@ == crypto_error("password is too long"@),
        result matches Ok(file) ==> {
            &&& v2_opened(file@, passphrase@) == Ok::<Seq<u8>, ErrorView>(source@)
            &&& file@.len() >= 32 && v2_body(
                argon2id_key(encode_utf8(passphrase@), file@.subrange(8, 24), 19456, 2, 1, 32),
                file@.subrange(32, file@.len() as int),
            ) == Ok::<Seq<u8>, ErrorView>(source@)
            &&& file@.len() == HEADER_V2_LEN + source@.len() + 32 * chunk_count(source@.len())
            &&& exists|salt: Seq<u8>, nonces: Seq<Seq<u8>>|
                #![trigger v2_file(source@, passphrase@, salt, nonces)]
                {
                    &&& salt.len() == SALT_LEN
                    &&& nonces.len() == chunk_count(source@.len())
                    &&& forall|i: int| 0 <= i < nonces.len() ==> (#[trigger] nonces[i]).len()
                        == NONCE_LEN
                    &&& file@ == v2_file(source@, passphrase@, salt, nonces)
                    &&& chunks_are_sized(passphrase_key(passphrase@, salt), source@, nonces)
                }
        },
{
    let (mut encryptor, mut file) = StreamEncryptor::begin(passphrase)?;
    let ghost salt = choose|salt: Seq<u8>|
        #![trigger v2_header(salt)]
        salt.len() == SALT_LEN && encryptor.key@ == passphrase_key(passphrase@, salt)
            && file@ == v2_header(salt);
    let ghost key = encryptor.key@;
    let ghost mut nonces: Seq<Seq<u8>> = Seq::empty();
    let ghost mut count: nat = 0;
    let mut at: usize = 0;
    proof {
        assert forall|rest: Seq<u8>|
            v2_opened(file@ + rest, passphrase@) == prepend(
                source@.subrange(0, 0),
                #[trigger] v2_body(key, rest),
            ) by {
            lemma_v2_header(passphrase@, salt, rest);
            if let Ok(tail) = v2_body(key, rest) {
                assert(source@.subrange(0, 0) + tail =~= tail);
            }
        }
        assert(v2_header(salt) + v2_chunks(key, source@, nonces, 0) =~= v2_header(salt));
    }
    while at < source.len()
        invariant
            encryptor.wf(),
            encryptor.key@ == key,
            key == passphrase_key(passphrase@, salt),
            at <= source@.len(),
            at == lesser(count * CHUNK_SIZE, source@.len() as int),
            at < source@.len() ==> at == count * CHUNK_SIZE,
            count == chunk_count(at as nat),
            nonces.len() == count,
            forall|i: int| 0 <= i < nonces.len() ==> (#[trigger] nonces[i]).len() == NONCE_LEN,
            chunks_are_sized(key, source@, nonces),
            salt.len() == SALT_LEN,
            file@ == v2_header(salt) + v2_chunks(key, source@, nonces, count),
            file@.len() == HEADER_V2_LEN + at + 32 * count,
            forall|rest: Seq<u8>|
                v2_opened(file@ + rest, passphrase@) == prepend(
                    source@.subrange(0, at as int),
                    #[trigger] v2_body(key, rest),
                ),
        decreases source@.len() - at,
    {
        let end: usize = if source.len() - at > CHUNK_SIZE {
            at + CHUNK_SIZE
        } else {
            source.len()
        };
        let content = slice_subrange(source, at, end);
        let mut chunk = match encryptor.seal(content) {
            Ok(chunk) => chunk,
            Err(error) => {
                encryptor.close();
                return Err(error);
            },
        };
        let ghost sealed = chunk@;
        let ghost before = file@;
        let ghost nonce = choose|nonce: Seq<u8>|
            #![trigger v2_chunk(key, nonce, content@)]
            nonce.len() == NONCE_LEN && sealed == v2_chunk(key, nonce, content@);
        file.append(&mut chunk);
        proof {
            lemma_v2_chunks_nonces(key, source@, nonces, nonce, count);
            assert(content@ =~= chunk_content(source@, count as int));
            assert(file@ =~= v2_header(salt) + v2_chunks(
                key,
                source@,
                nonces.push(nonce),
                count + 1,
            ));
            lemma_v2_step(passphrase@, key, source@, at as int, end as int, before, sealed);
            assert(chunks_are_sized(key, source@, nonces.push(nonce))) by {
                assert(sealed.len() == 16 + aes256gcm_sealed(key, nonce, content@).len());
                assert forall|i: int| 0 <= i < nonces.push(nonce).len() implies {
                    &&& 1 <= chunk_content(source@, i).len() <= CHUNK_SIZE
                    &&& aes256gcm_sealed(
                        key,
                        #[trigger] nonces.push(nonce)[i],
                        chunk_content(source@, i),
                    ).len() == chunk_content(source@, i).len() + TAG_LEN
                } by {
                    if i < nonces.len() {
                        assert(nonces.push(nonce)[i] == nonces[i]);
                    }
                }
            }
            nonces = nonces.push(nonce);
            count = count + 1;
        }
        at = end;
    }
    encryptor.close();
    proof {
        let nothing = Seq::<u8>::empty();
        assert(file@ + nothing =~= file@);
        assert(v2_body(key, nothing) == Ok::<Seq<u8>, ErrorView>(nothing));
        assert(source@.subrange(0, at as int) + nothing =~= source@);
        assert(file@ == v2_file(source@, passphrase@, salt, nonces));
        assert(file@.subrange(8, 24) =~= salt);
        lemma_v2_header(passphrase@, salt, file@.subrange(32, file@.len() as int));
        assert(v2_header(salt) + file@.subrange(32, file@.len() as int) =~= file@);
    }
    Ok(file)
}

} // verus!
