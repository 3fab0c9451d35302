//! Encryption of the request log and renewal of its initialisation vectors.
use vstd::prelude::*;

use aes::cipher::block_padding::Pkcs7;
use aes::cipher::inout::PadError;
use aes::cipher::{BlockEncryptMut, KeyIvInit};
use sha2::Digest;

use crate::error::Error;

verus! {

/// Length of the initialisation vectors produced by `update_iv`.
pub const IV_LENGTH: usize = 16;

/// The AES-128 encryption of one 16-byte block under `key`, as computed by the `aes` crate.
pub uninterp spec fn aes128_block(key: Seq<u8>, block: Seq<u8>) -> [u8; 16];

/// `data` padded with PKCS#7 to whole 16-byte blocks: `p` bytes of value `p` are added,
/// where `p`, from 1 to 16, is what is missing from the last block.
pub open spec fn pkcs7_pad(data: Seq<u8>) -> Seq<u8> {
    let p = 16 - data.len() % 16;
    data + Seq::new(p as nat, |i: int| p as u8)
}

/// The byte-wise exclusive or of two 16-byte blocks.
pub open spec fn xor_block(a: Seq<u8>, b: Seq<u8>) -> Seq<u8> {
    Seq::new(16, |i: int| a[i] ^ b[i])
}

/// CBC encryption of the whole blocks of `plain`: each block is combined with the
/// ciphertext of the one before (`prev` for the first) and encrypted with AES-128.
pub open spec fn cbc_encrypt(key: Seq<u8>, prev: Seq<u8>, plain: Seq<u8>) -> Seq<u8>
    decreases plain.len(),
{
    if plain.len() < 16 {
        Seq::empty()
    } else {
        let c = aes128_block(key, xor_block(prev, plain.subrange(0, 16)))@;
        c + cbc_encrypt(key, c, plain.subrange(16, plain.len() as int))
    }
}

/// The AES-128-CBC encryption, with PKCS#7 padding, of `data` under `key` and `iv`.
pub open spec fn aes128_cbc_pkcs7(key: Seq<u8>, iv: Seq<u8>, data: Seq<u8>) -> Seq<u8> {
    cbc_encrypt(key, iv, pkcs7_pad(data))
}

/// The SHA-256 digest of `data`, as computed by the `sha2` crate.
pub uninterp spec fn sha256(data: Seq<u8>) -> Seq<u8>;

/// Length of a message of `len` bytes once padded with PKCS#7 to whole 16-byte blocks:
/// padding always adds at least one byte and at most one block.
pub open spec fn padded_len(len: nat) -> nat {
    (len / 16 + 1) * 16
}

/// The first `k` blocks (of 16 bytes) of `s`.
pub open spec fn blocks(s: Seq<u8>, k: nat) -> Seq<u8> {
    s.subrange(0, 16 * k as int)
}

/// Calls `cbc::Encryptor::<aes::Aes128>::new(key, iv).encrypt_padded_b2b_mut::<Pkcs7>(data, out)`
/// and returns the length of the ciphertext slice that it hands back.
/// Claimed of it, as the sources of `cipher` and `inout` show: it fails, writing nothing,
/// exactly when `out` is shorter than the padded length of `data`; otherwise the first
/// `padded_len` bytes of `out` become the ciphertext and the other bytes are left as
/// they were. The ciphertext is `aes128_cbc_pkcs7`: the data padded with PKCS#7
/// (`block-padding`, `Pkcs7::pad`), then encrypted block by block, each block combined
/// with the ciphertext of the one before, the IV for the first (`cbc` `encrypt.rs`,
/// `proc_block`); the AES-128 block encryption itself is named `aes128_block`, and the
/// first ciphertext block is that of the first padded block combined with the IV.
/// The key and the IV must be one block long, or the conversion to a block panics.
#[verifier::external_body]
fn cbc_encrypt_padded_b2b(key: &[u8], iv: &[u8], data: &[u8], out: &mut Vec<u8>) -> (r: Result<usize, PadError>)
    requires
        key@.len() == 16,
        iv@.len() == 16,
    ensures
        final(out)@.len() == old(out)@.len(),
        r is Ok <==> padded_len(data@.len()) <= old(out)@.len(),
        r is Err ==> final(out)@ == old(out)@,
        r matches Ok(n) ==> {
            &&& n == padded_len(data@.len())
            &&& final(out)@.subrange(0, n as int) == aes128_cbc_pkcs7(key@, iv@, data@)
            &&& final(out)@.subrange(0, 16) == aes128_block(key@, xor_block(iv@, pkcs7_pad(data@).subrange(0, 16)))@
            &&& final(out)@.subrange(n as int, final(out)@.len() as int)
                == old(out)@.subrange(n as int, old(out)@.len() as int)
        },
{
    let cipher = cbc::Encryptor::<aes::Aes128>::new(key.into(), iv.into());
    match cipher.encrypt_padded_b2b_mut::<Pkcs7>(data, out.as_mut_slice()) {
        Ok(ciphertext) => Ok(ciphertext.len()),
        Err(e) => Err(e),
    }
}

/// Calls `sha2::Sha256::digest(data)`. Claimed of it: the digest is 32 bytes long
/// (the output size of `Sha256` in the crate's source) and is the one named `sha256`.
#[verifier::external_body]
fn sha256_digest(data: &[u8]) -> (r: [u8; 32])
    ensures
        r@ == sha256(data@),
{
    sha2::Sha256::digest(data).into()
}

/// Size of the buffer that holds the PKCS#7-padded encryption of `len` bytes.
pub fn get_padded_size(len: usize) -> (r: usize)
    requires
        len <= usize::MAX - 16,
    ensures
        r == padded_len(len as nat),
        r % 16 == 0,
        len < r <= len + 16,
{
    (len / 16 + 1) * 16
}

/// Encrypts `data` with AES-128 in CBC mode under `key` and `iv`, padding it with PKCS#7.
pub fn aes_cbc_cipher(key: &[u8], iv: &[u8], data: &[u8]) -> (r: Result<Vec<u8>, Error>)
    requires
        key@.len() == 16,
        iv@.len() == 16,
        data@.len() <= usize::MAX - 16,
    ensures
        r matches Ok(c) && c@ == aes128_cbc_pkcs7(key@, iv@, data@)
            && c@.len() == padded_len(data@.len()),
        // Each ciphertext block depends only on the key, the IV and the plaintext
        // blocks up to it.
        r matches Ok(c) && forall|k: nat| k <= data@.len() / 16 ==>
            blocks(c@, k) == cbc_encrypt(key@, iv@, #[trigger] blocks(data@, k)),
{
    proof {
        assert forall|k: nat| k <= data@.len() / 16 implies
            blocks(aes128_cbc_pkcs7(key@, iv@, data@), k) == cbc_encrypt(key@, iv@, #[trigger] blocks(data@, k)) by {
            lemma_cbc_blocks(key@, iv@, data@, k);
        }
    }
    let cipher_length = get_padded_size(data.len());
    let mut outbuf: Vec<u8> = vec![0; cipher_length];
    let result = cbc_encrypt_padded_b2b(key, iv, data, &mut outbuf);
    match result {
        Ok(n) => {
            assert(outbuf@.subrange(0, n as int) =~= outbuf@);
            Ok(outbuf)
        },
        Err(_) => Err(Error::PaddingError),
    }
}

/// CBC encryption turns whole blocks into as many blocks.
pub proof fn lemma_cbc_len(key: Seq<u8>, prev: Seq<u8>, plain: Seq<u8>)
    ensures
        cbc_encrypt(key, prev, plain).len() == 16 * (plain.len() / 16),
    decreases plain.len(),
{
    if plain.len() >= 16 {
        let c = aes128_block(key, xor_block(prev, plain.subrange(0, 16)))@;
        lemma_cbc_len(key, c, plain.subrange(16, plain.len() as int));
    }
}

/// The first `k` blocks of a CBC encryption are the CBC encryption of the first `k`
/// plaintext blocks.
pub proof fn lemma_cbc_encrypt_prefix(key: Seq<u8>, prev: Seq<u8>, plain: Seq<u8>, k: nat)
    requires
        16 * k <= plain.len(),
    ensures
        blocks(cbc_encrypt(key, prev, plain), k) == cbc_encrypt(key, prev, blocks(plain, k)),
    decreases k,
{
    lemma_cbc_len(key, prev, plain);
    if k == 0 {
        assert(blocks(cbc_encrypt(key, prev, plain), 0) =~= Seq::<u8>::empty());
    } else {
        let head = plain.subrange(0, 16);
        let c = aes128_block(key, xor_block(prev, head))@;
        let rest = plain.subrange(16, plain.len() as int);
        let pre = blocks(plain, k);
        lemma_cbc_encrypt_prefix(key, c, rest, (k - 1) as nat);
        lemma_cbc_len(key, c, rest);
        assert(pre.subrange(0, 16) =~= head);
        assert(pre.subrange(16, pre.len() as int) =~= blocks(rest, (k - 1) as nat));
        assert(cbc_encrypt(key, prev, pre) == c + cbc_encrypt(key, c, blocks(rest, (k - 1) as nat)));
        assert(cbc_encrypt(key, prev, plain) == c + cbc_encrypt(key, c, rest));
        assert(blocks(c + cbc_encrypt(key, c, rest), k)
            =~= c + blocks(cbc_encrypt(key, c, rest), (k - 1) as nat));
    }
}

/// The first `k` ciphertext blocks of `data` are the CBC encryption of its first `k`
/// whole blocks: padding only touches what follows.
pub proof fn lemma_cbc_blocks(key: Seq<u8>, iv: Seq<u8>, data: Seq<u8>, k: nat)
    requires
        k <= data.len() / 16,
    ensures
        blocks(aes128_cbc_pkcs7(key, iv, data), k) == cbc_encrypt(key, iv, blocks(data, k)),
{
    let padded = pkcs7_pad(data);
    lemma_cbc_encrypt_prefix(key, iv, padded, k);
    assert(blocks(padded, k) =~= blocks(data, k));
}

/// Each ciphertext block depends only on the key, the IV and the plaintext blocks up
/// to it: messages that share their first `k` whole blocks share their first `k`
/// ciphertext blocks.
pub proof fn lemma_cbc_prefix(key: Seq<u8>, iv: Seq<u8>, d1: Seq<u8>, d2: Seq<u8>, k: nat)
    requires
        k <= d1.len() / 16,
        k <= d2.len() / 16,
        blocks(d1, k) == blocks(d2, k),
    ensures
        blocks(aes128_cbc_pkcs7(key, iv, d1), k) == blocks(aes128_cbc_pkcs7(key, iv, d2), k),
{
    lemma_cbc_blocks(key, iv, d1, k);
    lemma_cbc_blocks(key, iv, d2, k);
}

/// The IV that follows `iv`: the first 16 bytes of its SHA-256 digest.
pub open spec fn next_iv(iv: Seq<u8>) -> Seq<u8> {
    sha256(iv).subrange(0, IV_LENGTH as int)
}

/// Derives a fresh initialisation vector from `iv`.
pub fn update_iv(iv: &[u8]) -> (r: [u8; IV_LENGTH])
    ensures
        r@ == next_iv(iv@),
        sha256(iv@).len() == 32,
        forall|k: int| 0 <= k < 16 ==> r@[k] == #[trigger] sha256(iv@)[k],
{
    let d = sha256_digest(iv);
    let r = [d[0], d[1], d[2], d[3], d[4], d[5], d[6], d[7], d[8], d[9], d[10], d[11], d[12], d[13], d[14], d[15]];
    assert(r@ =~= next_iv(iv@));
    r
}

} // verus!
