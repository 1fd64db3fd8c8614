use garbled_aes::garbled_circuit::{decode2, evaluate2, generate2, GarbledOutputLabel2, GarbledTable};
use garbled_aes::symmetric_key_encryption::{
    decrypt, double_decrypt, double_encrypt, encrypt, CryptoError,
};
use garbled_aes::util::generate_os_rand;

#[test]
fn random_bytes_have_requested_length() {
    assert_eq!(generate_os_rand(128).len(), 16);
    assert_eq!(generate_os_rand(96).len(), 12);
    assert_eq!(generate_os_rand(7).len(), 0);
}

#[test]
fn encrypt_then_decrypt() {
    let key = [7u8; 16];
    let plaintext = b"attack at dawn".to_vec();
    let (nonce, ciphertext) = encrypt(&key, &plaintext).unwrap();
    assert_eq!(nonce.len(), 12);
    assert_eq!(ciphertext.len(), plaintext.len() + 16);
    assert_ne!(&ciphertext[..plaintext.len()], &plaintext[..]);
    assert_eq!(decrypt(&key, (&nonce, &ciphertext)).unwrap(), plaintext);
}

#[test]
fn encrypt_rejects_short_key() {
    assert_eq!(encrypt(&[1u8; 15], b"x"), Err(CryptoError::InvalidKeyLength));
}

#[test]
fn decrypt_errors() {
    let key = [9u8; 16];
    let (nonce, mut ciphertext) = encrypt(&key, b"label").unwrap();
    assert_eq!(decrypt(&[9u8; 32], (&nonce, &ciphertext)), Err(CryptoError::InvalidKeyLength));
    assert_eq!(decrypt(&key, (&vec![0u8; 11], &ciphertext)), Err(CryptoError::InvalidNonceLength));
    assert_eq!(decrypt(&[8u8; 16], (&nonce, &ciphertext)), Err(CryptoError::DecryptionFailed));
    ciphertext[0] ^= 1;
    assert_eq!(decrypt(&key, (&nonce, &ciphertext)), Err(CryptoError::DecryptionFailed));
    assert_eq!(decrypt(&key, (&nonce, &vec![0u8; 3])), Err(CryptoError::DecryptionFailed));
}

#[test]
fn double_encrypt_then_double_decrypt() {
    let key1 = [1u8; 16];
    let key2 = [2u8; 16];
    let plaintext = vec![0xabu8; 16];
    let sealed = double_encrypt(&key1, &key2, &plaintext).unwrap();
    assert_eq!(sealed.1.len(), plaintext.len() + 32);
    assert_eq!(double_decrypt(&key1, &key2, &sealed).unwrap(), plaintext);
    assert_eq!(double_decrypt(&key2, &key1, &sealed), Err(CryptoError::DecryptionFailed));
    assert_eq!(double_encrypt(&key1, &[2u8; 3], &plaintext), Err(CryptoError::InvalidKeyLength));
}

#[test]
fn not_gate_evaluates_both_inputs() {
    let base_table = [1u8, 0u8];
    let (input2, output2, table2) = generate2().unwrap();
    assert_eq!(input2.0.len(), 16);
    assert_eq!(output2.1.len(), 16);

    let output = evaluate2(&input2.0, &table2).unwrap();
    assert_eq!(output, output2.0);
    assert_eq!(decode2(&output, &output2, &base_table), Ok(1));

    let output = evaluate2(&input2.1, &table2).unwrap();
    assert_eq!(output, output2.1);
    assert_eq!(decode2(&output, &output2, &base_table), Ok(0));
}

#[test]
fn evaluate_with_unknown_label_fails() {
    let (_, _, table2) = generate2().unwrap();
    assert_eq!(evaluate2(&[0u8; 16], &table2), Err(CryptoError::EvaluationFailed));
}

#[test]
fn decode_unknown_label_fails() {
    let labels = GarbledOutputLabel2(vec![1u8; 16], vec![2u8; 16]);
    assert_eq!(decode2(&[3u8; 16], &labels, &[1, 0]), Err(CryptoError::DecodingFailed));
    assert_eq!(decode2(&[2u8; 16], &labels, &[1, 0]), Ok(0));
}

#[test]
fn table_from_parts() {
    let table = GarbledTable::from((vec![1u8, 2], vec![3u8]));
    let (nonce, ciphertext) = table.as_tuple();
    assert_eq!(nonce, &vec![1u8, 2]);
    assert_eq!(ciphertext, &vec![3u8]);
}
