//! What holds of encrypted files, byte for byte.
use vstd::prelude::*;
use vstd::utf8::{encode_utf8, encode_utf8_decode_utf8};

use super::{in_one, lemma_in_one_push};
use crate::config::ConfigValue;
use crate::crypto::{
    aes256gcm_opened, aes256gcm_sealed, argon2id_key, chunk_content, chunk_count, chunks_are_sized,
    decrypt_bytes, decrypt_file_streaming, encrypt_bytes, encrypt_file_streaming, from_le32, le32,
    magic_v1, magic_v2, passphrase_key, prepend, seal_bytes, v2_after_length, v2_after_nonce,
    v2_body, v2_chunks, v2_file, DecryptStage, StreamDecryptor, StreamEncryptor,
};
use crate::error::{outcome, Error, ErrorView};
use crate::transfer::{read_passphrase, TransferPlanner};

verus! {

/// Two passphrases go into a key as the same bytes only if they are the same.
pub proof fn law_passphrases_are_told_apart(a: Seq<char>, b: Seq<char>)
    ensures
        encode_utf8(a) == encode_utf8(b) ==> a == b,
{
    encode_utf8_decode_utf8(a);
    encode_utf8_decode_utf8(b);
}

/// What is sealed in the whole-file format is sealed under the key of every byte of the passphrase and
/// of the salt that stands in the file, with the nonce that stands behind it.
pub proof fn law_whole_file_is_sealed_under_its_passphrase(
    plaintext: &[u8],
    passphrase: &str,
    salt: &[u8],
    nonce: &[u8],
    result: Result<Vec<u8>, Error>,
)
    requires
        call_ensures(seal_bytes, (plaintext, passphrase, salt, nonce), result),
        salt@.len() == 16,
        nonce@.len() == 12,
        encode_utf8(passphrase@).len() <= 0xffff_ffff,
        plaintext@.len() <= 0x10_0000_0000,
    ensures
        result is Ok,
        result->Ok_0@ == seq![0x42u8, 0x44, 0x50, 0x45, 0x4e, 0x43, 0x31, 0x00] + salt@ + nonce@
            + aes256gcm_sealed(
            argon2id_key(encode_utf8(passphrase@), salt@, 19456, 2, 1, 32),
            nonce@,
            plaintext@,
        ),
{
}

/// A file in the whole-file format opens to the message that the cipher finds under the key of every
/// byte of the passphrase, and is refused where the cipher finds none.
pub proof fn law_whole_file_opens_under_its_passphrase(
    salt: Seq<u8>,
    nonce: Seq<u8>,
    sealed: Seq<u8>,
    file: &[u8],
    passphrase: &str,
    result: Result<Vec<u8>, Error>,
)
    requires
        call_ensures(decrypt_bytes, (file, passphrase), result),
        salt.len() == 16,
        nonce.len() == 12,
        file@ == seq![0x42u8, 0x44, 0x50, 0x45, 0x4e, 0x43, 0x31, 0x00] + salt + nonce + sealed,
        encode_utf8(passphrase@).len() <= 0xffff_ffff,
    ensures
        match aes256gcm_opened(
            argon2id_key(encode_utf8(passphrase@), salt, 19456, 2, 1, 32),
            nonce,
            sealed,
        ) {
            Some(message) => result matches Ok(opened) && opened@ == message,
            None => result matches Err(error) && error@ == ErrorView::Crypto(
                "invalid passphrase or corrupted ciphertext"@,
            ),
        },
{
    assert(file@.subrange(0, 8) =~= magic_v1());
    assert(file@.subrange(8, 24) =~= salt);
    assert(file@.subrange(24, 36) =~= nonce);
    assert(file@.subrange(36, file@.len() as int) =~= sealed);
}

/// What is encrypted as a whole decrypts to the same bytes under the same passphrase, and a downloaded
/// copy of it does too.
pub proof fn law_whole_file_round_trip(
    plaintext: &[u8],
    passphrase: &str,
    encrypted: Result<Vec<u8>, Error>,
    file: &[u8],
    decrypted: Result<Vec<u8>, Error>,
    planner: TransferPlanner,
    setting: ConfigValue,
    downloaded: Result<Vec<u8>, Error>,
)
    requires
        call_ensures(encrypt_bytes, (plaintext, passphrase), encrypted),
        encrypted matches Ok(written) && written@ == file@,
        call_ensures(decrypt_bytes, (file, passphrase), decrypted),
        setting.value() == Some(passphrase@),
        call_ensures(
            TransferPlanner::decrypt_downloaded_file,
            (&planner, file, setting),
            downloaded,
        ),
    ensures
        decrypted matches Ok(content) && content@ == plaintext@,
        downloaded matches Ok(content) && content@ == plaintext@,
{
    assert(file@.len() >= 36);
    assert(magic_v1()[6] != magic_v2()[6]);
    assert(file@.subrange(0, 8) == magic_v1());
}

/// The bytes of a chunk: the nonce, how long the rest is, the least significant byte first, and what
/// was sealed.
pub open spec fn chunk_bytes(nonce: Seq<u8>, sealed: Seq<u8>) -> Seq<u8> {
    nonce + seq![
        (sealed.len() % 0x100) as u8,
        (sealed.len() / 0x100 % 0x100) as u8,
        (sealed.len() / 0x1_0000 % 0x100) as u8,
        (sealed.len() / 0x100_0000 % 0x100) as u8,
    ] + sealed
}

/// The chunks of a file, one after the other.
pub open spec fn chunks_bytes(nonces: Seq<Seq<u8>>, sealed: Seq<Seq<u8>>) -> Seq<u8> {
    in_one(Seq::new(nonces.len(), |i: int| chunk_bytes(nonces[i], sealed[i])))
}

proof fn lemma_chunk_is_read(key: Seq<u8>, nonce: Seq<u8>, sealed: Seq<u8>, rest: Seq<u8>)
    requires
        nonce.len() == 12,
        sealed.len() < 0x1_0000_0000,
    ensures
        v2_body(key, chunk_bytes(nonce, sealed) + rest) == (match aes256gcm_opened(
            key,
            nonce,
            sealed,
        ) {
            Some(message) => prepend(message, v2_body(key, rest)),
            None => Err(ErrorView::Crypto("invalid passphrase or corrupted ciphertext"@)),
        }),
{
    let data = chunk_bytes(nonce, sealed) + rest;
    let behind_nonce = data.subrange(12, data.len() as int);
    let behind_length = behind_nonce.subrange(4, behind_nonce.len() as int);
    let n = sealed.len() as int;
    assert(data.subrange(0, 12) =~= nonce);
    let length = behind_nonce.subrange(0, 4);
    assert(length[0] == n % 0x100);
    assert(length[1] == n / 0x100 % 0x100);
    assert(length[2] == n / 0x1_0000 % 0x100);
    assert(length[3] == n / 0x100_0000 % 0x100);
    assert(from_le32(length) == n);
    assert(behind_length =~= sealed + rest);
    assert(behind_length.subrange(0, n) =~= sealed);
    assert(behind_length.subrange(n, behind_length.len() as int) =~= rest);
    assert(v2_body(key, data) == v2_after_nonce(key, nonce, behind_nonce));
    assert(v2_after_nonce(key, nonce, behind_nonce) == v2_after_length(
        key,
        nonce,
        sealed.len(),
        behind_length,
    ));
}

proof fn lemma_chunks_are_read(
    key: Seq<u8>,
    nonces: Seq<Seq<u8>>,
    sealed: Seq<Seq<u8>>,
    messages: Seq<Seq<u8>>,
)
    requires
        nonces.len() == sealed.len() == messages.len(),
        forall|i: int| 0 <= i < nonces.len() ==> (#[trigger] nonces[i]).len() == 12,
        forall|i: int| 0 <= i < sealed.len() ==> (#[trigger] sealed[i]).len() < 0x1_0000_0000,
        forall|i: int|
            0 <= i < messages.len() ==> aes256gcm_opened(key, nonces[i], sealed[i]) == Some(
                #[trigger] messages[i],
            ),
    ensures
        v2_body(key, chunks_bytes(nonces, sealed)) == Ok::<Seq<u8>, ErrorView>(in_one(messages)),
    decreases nonces.len(),
{
    let chunks = Seq::new(nonces.len(), |i: int| chunk_bytes(nonces[i], sealed[i]));
    if nonces.len() > 0 {
        let later_nonces = nonces.drop_first();
        let later_sealed = sealed.drop_first();
        assert(messages[0] == messages[0]);
        assert forall|i: int| 0 <= i < messages.drop_first().len() implies aes256gcm_opened(
            key,
            later_nonces[i],
            later_sealed[i],
        ) == Some(#[trigger] messages.drop_first()[i]) by {
            assert(messages.drop_first()[i] == messages[i + 1]);
        }
        lemma_chunks_are_read(key, later_nonces, later_sealed, messages.drop_first());
        assert(chunks.drop_first() =~= Seq::new(
            later_nonces.len(),
            |i: int| chunk_bytes(later_nonces[i], later_sealed[i]),
        ));
        lemma_chunk_is_read(
            key,
            nonces[0],
            sealed[0],
            chunks_bytes(later_nonces, later_sealed),
        );
    }
}

/// A file in chunks opens to the messages that the cipher finds in its chunks, one after the other,
/// under the key of every byte of the passphrase and of the salt that stands in the file.
pub proof fn law_file_in_chunks_opens_under_its_passphrase(
    salt: Seq<u8>,
    reserved: Seq<u8>,
    nonces: Seq<Seq<u8>>,
    sealed: Seq<Seq<u8>>,
    messages: Seq<Seq<u8>>,
    file: &[u8],
    passphrase: &str,
    result: Result<Vec<u8>, Error>,
)
    requires
        call_ensures(decrypt_file_streaming, (file, passphrase), result),
        salt.len() == 16,
        reserved.len() == 8,
        encode_utf8(passphrase@).len() <= 0xffff_ffff,
        file@ == seq![0x42u8, 0x44, 0x50, 0x45, 0x4e, 0x43, 0x32, 0x00] + salt + reserved
            + chunks_bytes(nonces, sealed),
        nonces.len() == sealed.len() == messages.len(),
        forall|i: int| 0 <= i < nonces.len() ==> (#[trigger] nonces[i]).len() == 12,
        forall|i: int| 0 <= i < sealed.len() ==> (#[trigger] sealed[i]).len() < 0x1_0000_0000,
        forall|i: int|
            0 <= i < messages.len() ==> aes256gcm_opened(
                argon2id_key(encode_utf8(passphrase@), salt, 19456, 2, 1, 32),
                nonces[i],
                sealed[i],
            ) == Some(#[trigger] messages[i]),
    ensures
        result matches Ok(opened) && opened@ == in_one(messages),
{
    let key = argon2id_key(encode_utf8(passphrase@), salt, 19456, 2, 1, 32);
    assert(file@.subrange(0, 8) =~= magic_v2());
    assert(file@.subrange(8, 24) =~= salt);
    assert(file@.subrange(32, file@.len() as int) =~= chunks_bytes(nonces, sealed));
    lemma_chunks_are_read(key, nonces, sealed, messages);
}

/// A file in chunks is refused where the cipher finds no message in its first chunk under the key of
/// every byte of the passphrase, whatever follows.
pub proof fn law_file_in_chunks_is_refused_under_another_passphrase(
    salt: Seq<u8>,
    reserved: Seq<u8>,
    nonce: Seq<u8>,
    sealed: Seq<u8>,
    rest: Seq<u8>,
    file: &[u8],
    passphrase: &str,
    result: Result<Vec<u8>, Error>,
)
    requires
        call_ensures(decrypt_file_streaming, (file, passphrase), result),
        salt.len() == 16,
        reserved.len() == 8,
        nonce.len() == 12,
        sealed.len() < 0x1_0000_0000,
        encode_utf8(passphrase@).len() <= 0xffff_ffff,
        file@ == seq![0x42u8, 0x44, 0x50, 0x45, 0x4e, 0x43, 0x32, 0x00] + salt + reserved + (
        chunk_bytes(nonce, sealed) + rest),
        aes256gcm_opened(
            argon2id_key(encode_utf8(passphrase@), salt, 19456, 2, 1, 32),
            nonce,
            sealed,
        ) is None,
    ensures
        result matches Err(error) && error@ == ErrorView::Crypto(
            "invalid passphrase or corrupted ciphertext"@,
        ),
{
    let key = argon2id_key(encode_utf8(passphrase@), salt, 19456, 2, 1, 32);
    assert(file@.subrange(0, 8) =~= magic_v2());
    assert(file@.subrange(8, 24) =~= salt);
    assert(file@.subrange(32, file@.len() as int) =~= chunk_bytes(nonce, sealed) + rest);
    lemma_chunk_is_read(key, nonce, sealed, rest);
}

/// The chunk of a part of a file seals all of it under the key of the file.
pub proof fn law_chunk_holds_its_part(
    encryptor: StreamEncryptor,
    nonce: &[u8],
    content: &[u8],
    result: Result<Vec<u8>, Error>,
)
    requires
        call_ensures(StreamEncryptor::seal_with, (&encryptor, nonce, content), result),
        content@.len() <= 67_108_864,
        nonce@.len() == 12,
    ensures
        result is Ok,
        aes256gcm_sealed(encryptor.key@, nonce@, content@).len() == content@.len() + 16,
        result->Ok_0@ == chunk_bytes(nonce@, aes256gcm_sealed(encryptor.key@, nonce@, content@)),
{
    let chunk = result->Ok_0@;
    let sealed = aes256gcm_sealed(encryptor.key@, nonce@, content@);
    assert(sealed.len() == content@.len() + 16);
    assert(chunk =~= chunk_bytes(nonce@, sealed));
}

/// The part of a content that its `i`th chunk of 64 MiB holds.
pub open spec fn part_of_64_mib(content: Seq<u8>, i: int) -> Seq<u8> {
    content.subrange(
        67_108_864 * i,
        if 67_108_864 * (i + 1) < content.len() {
            67_108_864 * (i + 1)
        } else {
            content.len() as int
        },
    )
}

proof fn lemma_chunks_are_written(
    key: Seq<u8>,
    content: Seq<u8>,
    nonces: Seq<Seq<u8>>,
    count: nat,
)
    requires
        count <= nonces.len(),
        chunks_are_sized(key, content, nonces),
    ensures
        v2_chunks(key, content, nonces, count) == chunks_bytes(
            nonces.take(count as int),
            Seq::new(
                count,
                |i: int| aes256gcm_sealed(key, nonces[i], part_of_64_mib(content, i)),
            ),
        ),
    decreases count,
{
    let taken = nonces.take(count as int);
    let sealed = Seq::new(
        count,
        |i: int| aes256gcm_sealed(key, nonces[i], part_of_64_mib(content, i)),
    );
    let chunks = Seq::new(count, |i: int| chunk_bytes(taken[i], sealed[i]));
    if count > 0 {
        let shorter = (count - 1) as nat;
        lemma_chunks_are_written(key, content, nonces, shorter);
        let before = Seq::new(
            shorter,
            |i: int| aes256gcm_sealed(key, nonces[i], part_of_64_mib(content, i)),
        );
        let fewer = nonces.take(shorter as int);
        assert(chunks.drop_last() =~= Seq::new(shorter, |i: int| chunk_bytes(fewer[i], before[i])));
        lemma_in_one_push(chunks.drop_last(), chunks.last());
        assert(chunks.drop_last().push(chunks.last()) =~= chunks);
        let part = part_of_64_mib(content, shorter as int);
        assert(part =~= chunk_content(content, shorter as int));
        let one = sealed[shorter as int];
        assert(nonces[shorter as int].len() == nonces[shorter as int].len());
        assert(one.len() == part.len() + 16);
        assert(le32((part.len() + 16) as nat) =~= seq![
            (one.len() % 0x100) as u8,
            (one.len() / 0x100 % 0x100) as u8,
            (one.len() / 0x1_0000 % 0x100) as u8,
            (one.len() / 0x100_0000 % 0x100) as u8,
        ]);
    } else {
        assert(chunks =~= Seq::<Seq<u8>>::empty());
    }
}

/// A file is encrypted in chunks of 64 MiB, as few as hold it, under the key of every byte of the
/// passphrase: behind the header with the salt stands a chunk for each part of the file, in order.
pub proof fn law_file_is_encrypted_in_chunks(
    source: &[u8],
    passphrase: &str,
    result: Result<Vec<u8>, Error>,
)
    requires
        call_ensures(encrypt_file_streaming, (source, passphrase), result),
        encode_utf8(passphrase@).len() <= 0xffff_ffff,
    ensures
        result is Ok,
        result->Ok_0@.len() >= 32,
        exists|nonces: Seq<Seq<u8>>, sealed: Seq<Seq<u8>>|
            {
                let salt = result->Ok_0@.subrange(8, 24);
                &&& nonces.len() == sealed.len() == (source@.len() + 67_108_863) / 67_108_864
                &&& forall|i: int| 0 <= i < nonces.len() ==> (#[trigger] nonces[i]).len() == 12
                &&& forall|i: int|
                    0 <= i < sealed.len() ==> #[trigger] sealed[i] == aes256gcm_sealed(
                        argon2id_key(encode_utf8(passphrase@), salt, 19456, 2, 1, 32),
                        nonces[i],
                        part_of_64_mib(source@, i),
                    )
                &&& result->Ok_0@ == seq![0x42u8, 0x44, 0x50, 0x45, 0x4e, 0x43, 0x32, 0x00] + salt
                    + seq![0u8, 0, 0, 0, 0, 0, 0, 0] + #[trigger] chunks_bytes(nonces, sealed)
            },
{
    let file = result->Ok_0;
    let (salt, nonces) = choose|salt: Seq<u8>, nonces: Seq<Seq<u8>>|
        #![trigger v2_file(source@, passphrase@, salt, nonces)]
        {
            &&& salt.len() == 16
            &&& nonces.len() == chunk_count(source@.len())
            &&& forall|i: int| 0 <= i < nonces.len() ==> (#[trigger] nonces[i]).len() == 12
            &&& file@ == v2_file(source@, passphrase@, salt, nonces)
            &&& chunks_are_sized(passphrase_key(passphrase@, salt), source@, nonces)
        };
    let key = argon2id_key(encode_utf8(passphrase@), salt, 19456, 2, 1, 32);
    let count = chunk_count(source@.len());
    let sealed = Seq::new(
        count,
        |i: int| aes256gcm_sealed(key, nonces[i], part_of_64_mib(source@, i)),
    );
    lemma_chunks_are_written(key, source@, nonces, count);
    assert(nonces.take(count as int) =~= nonces);
    assert(file@.subrange(8, 24) =~= salt);
    assert(file@ == seq![0x42u8, 0x44, 0x50, 0x45, 0x4e, 0x43, 0x32, 0x00] + salt + seq![
        0u8,
        0,
        0,
        0,
        0,
        0,
        0,
        0,
    ] + chunks_bytes(nonces, sealed));
}

/// What is encrypted in chunks decrypts to the same bytes under the same passphrase, and a downloaded
/// copy of it does too.
pub proof fn law_file_in_chunks_round_trip(
    source: &[u8],
    passphrase: &str,
    encrypted: Result<Vec<u8>, Error>,
    file: &[u8],
    decrypted: Result<Vec<u8>, Error>,
    planner: TransferPlanner,
    setting: ConfigValue,
    downloaded: Result<Vec<u8>, Error>,
)
    requires
        call_ensures(encrypt_file_streaming, (source, passphrase), encrypted),
        encrypted matches Ok(written) && written@ == file@,
        call_ensures(decrypt_file_streaming, (file, passphrase), decrypted),
        setting.value() == Some(passphrase@),
        call_ensures(
            TransferPlanner::decrypt_downloaded_file,
            (&planner, file, setting),
            downloaded,
        ),
    ensures
        decrypted matches Ok(content) && content@ == source@,
        downloaded matches Ok(content) && content@ == source@,
{
}

/// A stored file is decrypted under the passphrase of the setting and no other: what comes of it is
/// what comes of decrypting it under that passphrase.
pub proof fn law_download_is_decrypted_under_the_passphrase(
    planner: TransferPlanner,
    file: &[u8],
    setting: ConfigValue,
    passphrase: &str,
    downloaded: Result<Vec<u8>, Error>,
    whole: Result<Vec<u8>, Error>,
    in_chunks: Result<Vec<u8>, Error>,
)
    requires
        call_ensures(
            TransferPlanner::decrypt_downloaded_file,
            (&planner, file, setting),
            downloaded,
        ),
        setting.value() == Some(passphrase@),
        call_ensures(decrypt_bytes, (file, passphrase), whole),
        call_ensures(decrypt_file_streaming, (file, passphrase), in_chunks),
    ensures
        ({
            let header = seq![0x42u8, 0x44, 0x50, 0x45, 0x4e, 0x43, 0x32, 0x00];
            if header.is_prefix_of(file@) {
                &&& downloaded is Ok <==> in_chunks is Ok
                &&& downloaded is Ok ==> outcome(downloaded) == outcome(in_chunks)
            } else {
                outcome(downloaded) == outcome(whole)
            }
        }),
{
    let header = seq![0x42u8, 0x44, 0x50, 0x45, 0x4e, 0x43, 0x32, 0x00];
    assert(header =~= magic_v2());
    if file@.len() >= 8 {
        assert(header.is_prefix_of(file@) <==> file@.subrange(0, 8) == header);
    }
}

/// A file that is too short for a header, or does not begin as an encrypted file does, is refused by
/// either format; and no key is made of a passphrase over 4 GiB.
pub proof fn law_other_files_are_refused(
    file: &[u8],
    passphrase: &str,
    whole: Result<Vec<u8>, Error>,
    in_chunks: Result<Vec<u8>, Error>,
)
    requires
        call_ensures(decrypt_bytes, (file, passphrase), whole),
        call_ensures(decrypt_file_streaming, (file, passphrase), in_chunks),
    ensures
        ({
            let first = seq![0x42u8, 0x44, 0x50, 0x45, 0x4e, 0x43, 0x31, 0x00];
            let second = seq![0x42u8, 0x44, 0x50, 0x45, 0x4e, 0x43, 0x32, 0x00];
            let too_long = encode_utf8(passphrase@).len() > 0xffff_ffff;
            &&& file@.len() < 36 || !first.is_prefix_of(file@) ==> whole is Err && whole->Err_0@
                == ErrorView::Crypto("unsupported encrypted file format"@)
            &&& file@.len() >= 36 && first.is_prefix_of(file@) && too_long ==> whole is Err
                && whole->Err_0@ == ErrorView::Crypto("password is too long"@)
            &&& file@.len() < 8 ==> in_chunks is Err && in_chunks->Err_0@ == ErrorView::Crypto(
                "file too short for V2 encrypted format"@,
            )
            &&& file@.len() >= 8 && !second.is_prefix_of(file@) ==> in_chunks is Err
                && in_chunks->Err_0@ == ErrorView::Crypto("not a V2 encrypted file"@)
            &&& 8 <= file@.len() < 24 && second.is_prefix_of(file@) ==> in_chunks is Err
                && in_chunks->Err_0@ == ErrorView::Crypto(
                "failed to read V2 salt: "@ + "failed to fill whole buffer"@,
            )
            &&& 24 <= file@.len() < 32 && second.is_prefix_of(file@) ==> in_chunks is Err
                && in_chunks->Err_0@ == ErrorView::Crypto(
                "failed to read V2 reserved: "@ + "failed to fill whole buffer"@,
            )
            &&& file@.len() >= 32 && second.is_prefix_of(file@) && too_long ==> in_chunks is Err
                && in_chunks->Err_0@ == ErrorView::Crypto("password is too long"@)
        }),
{
    let first = seq![0x42u8, 0x44, 0x50, 0x45, 0x4e, 0x43, 0x31, 0x00];
    let second = seq![0x42u8, 0x44, 0x50, 0x45, 0x4e, 0x43, 0x32, 0x00];
    assert(first =~= magic_v1());
    assert(second =~= magic_v2());
    if file@.len() >= 8 {
        assert(first.is_prefix_of(file@) <==> file@.subrange(0, 8) == first);
        assert(second.is_prefix_of(file@) <==> file@.subrange(0, 8) == second);
    }
}

/// What a file in chunks that ends early comes to: a rest too short for a nonce ends it, and a chunk
/// that is cut off is reported, whatever came before it.
pub proof fn law_file_that_ends_early(
    salt: Seq<u8>,
    reserved: Seq<u8>,
    rest: Seq<u8>,
    file: &[u8],
    passphrase: &str,
    result: Result<Vec<u8>, Error>,
)
    requires
        call_ensures(decrypt_file_streaming, (file, passphrase), result),
        salt.len() == 16,
        reserved.len() == 8,
        encode_utf8(passphrase@).len() <= 0xffff_ffff,
        file@ == seq![0x42u8, 0x44, 0x50, 0x45, 0x4e, 0x43, 0x32, 0x00] + salt + reserved + rest,
    ensures
        rest.len() < 12 ==> result is Ok && result->Ok_0@.len() == 0,
        12 <= rest.len() < 16 ==> result is Err && result->Err_0@ == ErrorView::Crypto(
            "failed to read chunk length: "@ + "failed to fill whole buffer"@,
        ),
        rest.len() >= 16 && rest.len() - 16 < rest[12] + 0x100 * rest[13] + 0x1_0000 * rest[14]
            + 0x100_0000 * rest[15] ==> result is Err && result->Err_0@ == ErrorView::Crypto(
            "failed to read chunk payload: "@ + "failed to fill whole buffer"@,
        ),
{
    assert(file@.subrange(0, 8) =~= magic_v2());
    assert(file@.subrange(32, file@.len() as int) =~= rest);
    reveal_with_fuel(v2_body, 2);
    if rest.len() >= 12 {
        let behind = rest.subrange(12, rest.len() as int);
        if rest.len() >= 16 {
            let length = behind.subrange(0, 4);
            assert(length[0] == rest[12] && length[1] == rest[13] && length[2] == rest[14]
                && length[3] == rest[15]);
        }
    }
}

/// A read that is not filled ends a file well only at its end between two chunks; anywhere else it is
/// reported, with the reason, for the part of the file that was being read.
pub proof fn law_unfilled_reads(
    decryptor: StreamDecryptor,
    end_of_file: bool,
    reason: &str,
    result: Result<(), Error>,
)
    requires
        call_ensures(StreamDecryptor::unfilled, (&decryptor, end_of_file, reason), result),
    ensures
        result is Ok <==> decryptor.stage is Nonce && end_of_file,
        result matches Err(error) ==> error@ == ErrorView::Crypto(
            match decryptor.stage {
                DecryptStage::Magic => "file too short for V2 encrypted format"@,
                DecryptStage::Salt => "failed to read V2 salt: "@ + reason@,
                DecryptStage::Reserved => "failed to read V2 reserved: "@ + reason@,
                DecryptStage::Nonce => "failed to read chunk nonce: "@ + reason@,
                DecryptStage::Length => "failed to read chunk length: "@ + reason@,
                DecryptStage::Payload => "failed to read chunk payload: "@ + reason@,
            },
        ),
{
}

/// A chunk in front of the rest of a file adds its message in front of what comes of the rest, whatever
/// the rest is; what is wrong with the rest is reported as it would be without the chunk.
pub proof fn law_chunk_comes_before_the_rest(
    salt: Seq<u8>,
    reserved: Seq<u8>,
    nonce: Seq<u8>,
    sealed: Seq<u8>,
    message: Seq<u8>,
    rest: Seq<u8>,
    longer: &[u8],
    shorter: &[u8],
    passphrase: &str,
    all: Result<Vec<u8>, Error>,
    without: Result<Vec<u8>, Error>,
)
    requires
        call_ensures(decrypt_file_streaming, (longer, passphrase), all),
        call_ensures(decrypt_file_streaming, (shorter, passphrase), without),
        salt.len() == 16,
        reserved.len() == 8,
        nonce.len() == 12,
        sealed.len() < 0x1_0000_0000,
        encode_utf8(passphrase@).len() <= 0xffff_ffff,
        longer@ == seq![0x42u8, 0x44, 0x50, 0x45, 0x4e, 0x43, 0x32, 0x00] + salt + reserved + (
        chunk_bytes(nonce, sealed) + rest),
        shorter@ == seq![0x42u8, 0x44, 0x50, 0x45, 0x4e, 0x43, 0x32, 0x00] + salt + reserved + rest,
        aes256gcm_opened(
            argon2id_key(encode_utf8(passphrase@), salt, 19456, 2, 1, 32),
            nonce,
            sealed,
        ) == Some(message),
    ensures
        match without {
            Ok(tail) => all is Ok && all->Ok_0@ == message + tail@,
            Err(error) => all is Err && all->Err_0@ == error@,
        },
{
    let key = argon2id_key(encode_utf8(passphrase@), salt, 19456, 2, 1, 32);
    assert(longer@.subrange(0, 8) =~= magic_v2());
    assert(longer@.subrange(8, 24) =~= salt);
    assert(longer@.subrange(32, longer@.len() as int) =~= chunk_bytes(nonce, sealed) + rest);
    assert(shorter@.subrange(0, 8) =~= magic_v2());
    assert(shorter@.subrange(8, 24) =~= salt);
    assert(shorter@.subrange(32, shorter@.len() as int) =~= rest);
    lemma_chunk_is_read(key, nonce, sealed, rest);
}

/// Without a passphrase nothing is decrypted; with one, a file in chunks that cannot be opened is
/// reported in the words of what is wrong with it.
pub proof fn law_downloads_that_do_not_decrypt(
    planner: TransferPlanner,
    file: &[u8],
    setting: ConfigValue,
    passphrase: &str,
    downloaded: Result<Vec<u8>, Error>,
    in_chunks: Result<Vec<u8>, Error>,
    words: String,
    read: Result<String, Error>,
)
    requires
        call_ensures(
            TransferPlanner::decrypt_downloaded_file,
            (&planner, file, setting),
            downloaded,
        ),
        setting.value() matches Some(value) ==> value == passphrase@,
        call_ensures(decrypt_file_streaming, (file, passphrase), in_chunks),
        in_chunks matches Err(error) ==> call_ensures(Error::to_string, (&error,), words),
        call_ensures(read_passphrase, (setting,), read),
    ensures
        setting.value() is None ==> downloaded is Err && read is Err && downloaded->Err_0@
            == read->Err_0@ && read->Err_0@ == ErrorView::Crypto(
            "encryption/decryption requires "@ + "BAIDUPAN_CRYPTO_PASSPHRASE"@
                + " environment variable"@,
        ),
        setting.value() is Some ==> read is Ok && read->Ok_0@ == setting.value()->0,
        setting.value() is Some && seq![0x42u8, 0x44, 0x50, 0x45, 0x4e, 0x43, 0x32, 0x00].is_prefix_of(
            file@,
        ) && in_chunks is Err ==> downloaded is Err && downloaded->Err_0@ == ErrorView::Crypto(
            words@,
        ),
{
    let header = seq![0x42u8, 0x44, 0x50, 0x45, 0x4e, 0x43, 0x32, 0x00];
    assert(header =~= magic_v2());
    if file@.len() >= 8 {
        assert(header.is_prefix_of(file@) <==> file@.subrange(0, 8) == header);
    }
}

} // verus!
