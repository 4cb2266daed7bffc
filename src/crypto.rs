//! Partition cryptography: title-key decryption and the per-cluster cipher,
//! AES-128 in CBC mode.
//!
//! A cluster is a 0x400-byte hash header followed by 0x7C00 bytes of data.
//! The header is enciphered with a zero IV; the data is enciphered with the
//! IV held at 0x3D0..0x3E0 of the enciphered header, so a cluster is always
//! handled header first.

use vstd::prelude::*;
use vstd::slice::slice_subrange;
use aes::cipher::block_padding::NoPadding;
use aes::cipher::generic_array::GenericArray;
use aes::cipher::{BlockDecryptMut, BlockEncryptMut, KeyIvInit};
use crate::hash_tree::append_bytes;

verus! {

/// Bytes in a cluster.
pub const CLUSTER_SIZE: usize = 0x8000;

/// Bytes of hash header at the start of a cluster.
pub const HEADER_SIZE: usize = 0x400;

/// Where, in the enciphered header, the data's IV lies.
pub const DATA_IV_OFFSET: usize = 0x3D0;

/// AES-128-CBC decryption of whole blocks under `key` and `iv`.
pub uninterp spec fn aes_cbc_decrypted(key: Seq<u8>, iv: Seq<u8>, data: Seq<u8>) -> Seq<u8>;

/// AES-128-CBC encryption of whole blocks under `key` and `iv`.
pub uninterp spec fn aes_cbc_encrypted(key: Seq<u8>, iv: Seq<u8>, data: Seq<u8>) -> Seq<u8>;

/// Relies on `cbc::Decryptor::<aes::Aes128>::new` and `decrypt_padded_mut`
/// with `NoPadding`: deciphers whole 16-byte blocks in place, keeping the
/// length; with whole blocks the call cannot fail.
#[verifier::external_body]
fn aes_cbc_decrypt(key: &[u8], iv: &[u8], data: &[u8]) -> (r: Vec<u8>)
    requires
        key@.len() == 16,
        iv@.len() == 16,
        data@.len() % 16 == 0,
    ensures
        r@ == aes_cbc_decrypted(key@, iv@, data@),
        r@.len() == data@.len(),
{
    let mut buf = data.to_vec();
    let _ = cbc::Decryptor::<aes::Aes128>::new(GenericArray::from_slice(key), GenericArray::from_slice(iv))
        .decrypt_padded_mut::<NoPadding>(&mut buf);
    buf
}

/// Relies on `cbc::Encryptor::<aes::Aes128>::new` and `encrypt_padded_mut`
/// with `NoPadding`: enciphers whole 16-byte blocks in place, keeping the
/// length; with whole blocks the call cannot fail.
#[verifier::external_body]
fn aes_cbc_encrypt(key: &[u8], iv: &[u8], data: &[u8]) -> (r: Vec<u8>)
    requires
        key@.len() == 16,
        iv@.len() == 16,
        data@.len() % 16 == 0,
    ensures
        r@ == aes_cbc_encrypted(key@, iv@, data@),
        r@.len() == data@.len(),
{
    let mut buf = data.to_vec();
    let len = buf.len();
    let _ = cbc::Encryptor::<aes::Aes128>::new(GenericArray::from_slice(key), GenericArray::from_slice(iv))
        .encrypt_padded_mut::<NoPadding>(&mut buf, len);
    buf
}

/// Sixteen zero bytes.
pub open spec fn zero_iv() -> Seq<u8> {
    Seq::new(16, |i: int| 0u8)
}

/// The IV of a title key: the title id followed by eight zero bytes.
pub open spec fn title_key_iv(title_id: Seq<u8>) -> Seq<u8> {
    title_id + Seq::new(8, |i: int| 0u8)
}

/// The plaintext of an enciphered cluster.
pub open spec fn cluster_plaintext(key: Seq<u8>, c: Seq<u8>) -> Seq<u8> {
    aes_cbc_decrypted(key, zero_iv(), c.take(0x400)) + aes_cbc_decrypted(
        key,
        c.subrange(0x3D0, 0x3E0),
        c.skip(0x400),
    )
}

/// The ciphertext of a plaintext cluster.
pub open spec fn cluster_ciphertext(key: Seq<u8>, p: Seq<u8>) -> Seq<u8> {
    let h = aes_cbc_encrypted(key, zero_iv(), p.take(0x400));
    h + aes_cbc_encrypted(key, h.subrange(0x3D0, 0x3E0), p.skip(0x400))
}

/// Deciphers a partition's title key from its ticket with the platform's
/// master key.
pub fn decrypt_partition_key(encrypted_key: &[u8], master_key: &[u8], title_id: &[u8]) -> (r:
    Vec<u8>)
    requires
        encrypted_key@.len() == 16,
        master_key@.len() == 16,
        title_id@.len() == 8,
    ensures
        r@ == aes_cbc_decrypted(master_key@, title_key_iv(title_id@), encrypted_key@),
        r@.len() == 16,
{
    let mut iv: Vec<u8> = Vec::new();
    let mut i: usize = 0;
    while i < 16
        invariant
            title_id@.len() == 8,
            i <= 16,
            iv@ == title_key_iv(title_id@).take(i as int),
        decreases 16 - i,
    {
        let b = if i < 8 {
            title_id[i]
        } else {
            0u8
        };
        iv.push(b);
        assert(iv@ =~= title_key_iv(title_id@).take(i + 1));
        i = i + 1;
    }
    assert(iv@ =~= title_key_iv(title_id@));
    aes_cbc_decrypt(master_key, iv.as_slice(), encrypted_key)
}

fn zero_block() -> (r: Vec<u8>)
    ensures
        r@ == zero_iv(),
{
    let r: Vec<u8> = vec![0u8; 16];
    assert(r@ =~= zero_iv());
    r
}

/// Deciphers a cluster: the header with a zero IV, then the data with the IV
/// taken from the enciphered header.
pub fn decrypt_cluster(cipher: &[u8], key: &[u8]) -> (r: Vec<u8>)
    requires
        cipher@.len() == 0x8000,
        key@.len() == 16,
    ensures
        r@ == cluster_plaintext(key@, cipher@),
        r@.len() == 0x8000,
{
    let zero = zero_block();
    let header = slice_subrange(cipher, 0, HEADER_SIZE);
    let iv = slice_subrange(cipher, DATA_IV_OFFSET, DATA_IV_OFFSET + 16);
    let data = slice_subrange(cipher, HEADER_SIZE, CLUSTER_SIZE);
    assert(header@ =~= cipher@.take(0x400));
    assert(data@ =~= cipher@.skip(0x400));
    let mut out = aes_cbc_decrypt(key, zero.as_slice(), header);
    let body = aes_cbc_decrypt(key, iv, data);
    append_bytes(&mut out, &body);
    out
}

/// Enciphers a cluster: the header with a zero IV, then the data with the IV
/// taken from the enciphered header.
pub fn encrypt_cluster(plain: &[u8], key: &[u8]) -> (r: Vec<u8>)
    requires
        plain@.len() == 0x8000,
        key@.len() == 16,
    ensures
        r@ == cluster_ciphertext(key@, plain@),
        r@.len() == 0x8000,
{
    let zero = zero_block();
    let header = slice_subrange(plain, 0, HEADER_SIZE);
    let data = slice_subrange(plain, HEADER_SIZE, CLUSTER_SIZE);
    assert(header@ =~= plain@.take(0x400));
    assert(data@ =~= plain@.skip(0x400));
    let mut out = aes_cbc_encrypt(key, zero.as_slice(), header);
    let iv = slice_subrange(out.as_slice(), DATA_IV_OFFSET, DATA_IV_OFFSET + 16);
    let body = aes_cbc_encrypt(key, iv, data);
    append_bytes(&mut out, &body);
    out
}

} // verus!
