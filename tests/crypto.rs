use aes::cipher::block_padding::NoPadding;
use aes::cipher::generic_array::GenericArray;
use aes::cipher::{BlockDecryptMut, BlockEncryptMut, KeyIvInit};
use geckolib::crypto::{decrypt_cluster, decrypt_partition_key, encrypt_cluster};

const KEY: [u8; 16] = [
    0x2b, 0x7e, 0x15, 0x16, 0x28, 0xae, 0xd2, 0xa6, 0xab, 0xf7, 0x15, 0x88, 0x09, 0xcf, 0x4f, 0x3c,
];

fn cluster() -> Vec<u8> {
    (0..0x8000u32).map(|i| (i.wrapping_mul(31) ^ (i >> 7)) as u8).collect()
}

#[test]
fn decrypt_then_encrypt_restores_ciphertext() {
    let cipher = cluster();
    let plain = decrypt_cluster(&cipher, &KEY);
    assert_eq!(plain.len(), 0x8000);
    assert_ne!(plain, cipher);
    assert_eq!(encrypt_cluster(&plain, &KEY), cipher);
}

#[test]
fn encrypt_then_decrypt_restores_plaintext() {
    let plain = cluster();
    let cipher = encrypt_cluster(&plain, &KEY);
    assert_eq!(cipher.len(), 0x8000);
    assert_ne!(cipher, plain);
    assert_eq!(decrypt_cluster(&cipher, &KEY), plain);
}

#[test]
fn data_iv_comes_from_the_enciphered_header() {
    let plain = cluster();
    let cipher = encrypt_cluster(&plain, &KEY);
    let mut data = plain[0x400..].to_vec();
    let len = data.len();
    cbc::Encryptor::<aes::Aes128>::new(GenericArray::from_slice(&KEY), GenericArray::from_slice(&cipher[0x3D0..0x3E0]))
        .encrypt_padded_mut::<NoPadding>(&mut data, len)
        .unwrap();
    assert_eq!(&cipher[0x400..], data.as_slice());
    let mut header = plain[..0x400].to_vec();
    cbc::Encryptor::<aes::Aes128>::new(GenericArray::from_slice(&KEY), GenericArray::from_slice(&[0u8; 16]))
        .encrypt_padded_mut::<NoPadding>(&mut header, 0x400)
        .unwrap();
    assert_eq!(&cipher[..0x400], header.as_slice());
}

#[test]
fn title_key_uses_title_id_as_iv() {
    let title_id = [0x00, 0x01, 0x00, 0x00, 0x52, 0x5a, 0x44, 0x45];
    let encrypted = [0x11u8; 16];
    let key = decrypt_partition_key(&encrypted, &KEY, &title_id);
    let mut iv = [0u8; 16];
    iv[..8].copy_from_slice(&title_id);
    let mut expected = encrypted.to_vec();
    cbc::Decryptor::<aes::Aes128>::new(GenericArray::from_slice(&KEY), GenericArray::from_slice(&iv))
        .decrypt_padded_mut::<NoPadding>(&mut expected)
        .unwrap();
    assert_eq!(key, expected);
    assert_ne!(key, encrypted.to_vec());
}
