use baidupan_cli::crypto::{
    decrypt_bytes, decrypt_file_streaming, encrypt_bytes, encrypt_file_streaming, seal_bytes,
    StreamDecryptor, StreamEncryptor, CHUNK_SIZE, HEADER_LEN, HEADER_V2_LEN,
};
use baidupan_cli::error::Error;

const MAGIC_V2: &[u8] = b"BDPENC2\0";

#[test]
fn encrypts_and_decrypts_roundtrip_v1() {
    let plaintext = b"hello baidupan";
    let encrypted = encrypt_bytes(plaintext, "passphrase").expect("encrypt");

    assert_ne!(encrypted, plaintext);
    assert_eq!(decrypt_bytes(&encrypted, "passphrase").expect("decrypt"), plaintext);
    assert_eq!(&encrypted[..8], b"BDPENC1\0");
    assert_eq!(encrypted.len(), HEADER_LEN + plaintext.len() + 16);
}

#[test]
fn rejects_wrong_passphrase_v1() {
    let encrypted = encrypt_bytes(b"secret", "right").expect("encrypt");
    let error = decrypt_bytes(&encrypted, "wrong").expect_err("wrong passphrase fails");

    assert!(error.to_string().contains("invalid passphrase"));
}

#[test]
fn seals_with_a_given_salt_and_nonce() {
    let first = seal_bytes(b"text", "pass", &[1; 16], &[2; 12]).expect("seal");
    let second = seal_bytes(b"text", "pass", &[1; 16], &[2; 12]).expect("seal");
    assert_eq!(first, second);
    assert_eq!(&first[8..24], &[1; 16]);
    assert_eq!(&first[24..36], &[2; 12]);
    assert_ne!(first, seal_bytes(b"text", "pass", &[3; 16], &[2; 12]).expect("seal"));
    assert_ne!(
        encrypt_bytes(b"text", "pass").expect("encrypt"),
        encrypt_bytes(b"text", "pass").expect("encrypt")
    );
}

#[test]
fn rejects_other_files_v1() {
    for file in [&b""[..], b"BDPENC1\0", &[7; 64]] {
        assert_eq!(
            decrypt_bytes(file, "pass"),
            Err(Error::Crypto("unsupported encrypted file format".to_string()))
        );
    }
}

#[test]
fn v2_streaming_roundtrip_single_chunk() {
    let plaintext = b"hello streaming baidupan v2";

    let encrypted = encrypt_file_streaming(plaintext, "passphrase").expect("encrypt v2");
    let decrypted = decrypt_file_streaming(&encrypted, "passphrase").expect("decrypt v2");

    assert_eq!(decrypted, plaintext);
}

#[test]
fn v2_streaming_roundtrip_multiple_chunks() {
    let size = CHUNK_SIZE + CHUNK_SIZE / 2;
    let pattern: Vec<u8> = (0u8..=255).cycle().take(size).collect();

    let encrypted = encrypt_file_streaming(&pattern, "passphrase").expect("encrypt v2 big");
    let dec = decrypt_file_streaming(&encrypted, "passphrase").expect("decrypt v2 big");

    assert_eq!(dec.len(), size);
    assert_eq!(dec, pattern);
    assert_eq!(encrypted.len(), HEADER_V2_LEN + size + 2 * 32);
}

#[test]
fn v2_streaming_encrypted_file_has_correct_header() {
    let enc = encrypt_file_streaming(b"data", "passphrase").expect("encrypt");

    assert_eq!(&enc[..8], MAGIC_V2);
    // salt (16) + reserved (8) + first chunk nonce (12) + len (4)
    let after_header = 8 + 16 + 8;
    assert!(enc.len() > after_header);
    assert_eq!(&enc[24..32], &[0; 8]);
    assert_eq!(&enc[44..48], &[20, 0, 0, 0]);
}

#[test]
fn v2_rejects_wrong_passphrase() {
    let encrypted = encrypt_file_streaming(b"secret", "right").expect("encrypt");

    let err = decrypt_file_streaming(&encrypted, "wrong").expect_err("wrong passphrase should fail");
    assert!(err.to_string().contains("invalid passphrase"));
}

#[test]
fn v1_encrypted_file_is_not_accepted_as_v2() {
    let encrypted_v1 = encrypt_bytes(b"hello", "passphrase").expect("encrypt v1");

    let err = decrypt_file_streaming(&encrypted_v1, "passphrase").expect_err("v1 as v2");
    assert!(err.to_string().contains("not a V2 encrypted file"));
}

#[test]
fn v2_empty_file_is_a_header() {
    let encrypted = encrypt_file_streaming(b"", "passphrase").expect("encrypt");
    assert_eq!(encrypted.len(), HEADER_V2_LEN);
    assert_eq!(decrypt_file_streaming(&encrypted, "passphrase").expect("decrypt"), b"");
}

#[test]
fn v2_reports_where_a_file_breaks_off() {
    let encrypted = encrypt_file_streaming(b"secret", "passphrase").expect("encrypt");
    let cut = |len: usize| decrypt_file_streaming(&encrypted[..len], "passphrase");
    let crypto = |text: &str| Err(Error::Crypto(text.to_string()));
    assert_eq!(cut(7), crypto("file too short for V2 encrypted format"));
    assert_eq!(cut(23), crypto("failed to read V2 salt: failed to fill whole buffer"));
    assert_eq!(cut(31), crypto("failed to read V2 reserved: failed to fill whole buffer"));
    assert_eq!(cut(32), Ok(Vec::new()));
    assert_eq!(cut(43), Ok(Vec::new()));
    assert_eq!(cut(47), crypto("failed to read chunk length: failed to fill whole buffer"));
    assert_eq!(
        cut(encrypted.len() - 1),
        crypto("failed to read chunk payload: failed to fill whole buffer")
    );
    let mut tampered = encrypted.clone();
    tampered[50] ^= 1;
    assert_eq!(
        decrypt_file_streaming(&tampered, "passphrase"),
        crypto("invalid passphrase or corrupted ciphertext")
    );
}

#[test]
fn v2_parts_sealed_one_by_one_open_to_the_whole() {
    let (mut encryptor, mut file) = StreamEncryptor::begin("passphrase").expect("begin");
    for part in [&b"one "[..], b"", b"two"] {
        file.extend(encryptor.seal(part).expect("seal"));
    }
    encryptor.close();
    assert!(encryptor.key.is_empty());
    assert_eq!(decrypt_file_streaming(&file, "passphrase").expect("decrypt"), b"one two");

    let mut decryptor = StreamDecryptor::new("passphrase");
    let mut rest = &file[..];
    let mut plaintext = Vec::new();
    while rest.len() >= decryptor.wanted() {
        let (head, tail) = rest.split_at(decryptor.wanted());
        plaintext.extend(decryptor.accept(head).expect("accept"));
        rest = tail;
    }
    assert_eq!(decryptor.unfilled(true, "end"), Ok(()));
    decryptor.close();
    assert_eq!(plaintext, b"one two");
}
