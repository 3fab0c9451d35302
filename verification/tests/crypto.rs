use aes::cipher::{BlockEncrypt, KeyInit};
use ecw::crypto::get_padded_size;
use ecw::serve::{bytes_to_hex, connection_iv, get_encrypted_req, u64_to_be_bytes};
use ecw::{aes_cbc_cipher, update_iv, LOG_KEY};

#[test]
fn test_iv_generation() {
    let iv = update_iv(&(259 as u64).to_be_bytes());
    assert_eq!(iv[0], 5);
    assert_eq!(iv[1], 236);
    assert_eq!(iv[2], 183);
    assert_eq!(iv[3], 226);
}

#[test]
fn test_padding_size() {
    assert_eq!(get_padded_size(6), 16);
    assert_eq!(get_padded_size(15), 16);
    assert_eq!(get_padded_size(16), 32);
    assert_eq!(get_padded_size(32), 48);
}

#[test]
fn test_aes_cbc() {
    let iv = "lalalalalalalala".as_bytes();
    let key = "lol1234567891234".as_bytes();
    let data = "\x00".repeat(16);
    let slice = aes_cbc_cipher(key, iv, &data.as_bytes()).unwrap();
    assert_eq!(227, slice[0]);
    assert_eq!(slice[1], 207);
    assert_eq!(slice[31], 73);
    assert_eq!(slice[30], 235);
}

#[test]
fn padded_size_of_empty_message_is_one_block() {
    assert_eq!(get_padded_size(0), 16);
    assert_eq!(get_padded_size(17), 32);
}

#[test]
fn ciphertext_has_padded_length() {
    let key = [7u8; 16];
    let iv = [9u8; 16];
    for len in [0usize, 1, 15, 16, 17, 40] {
        let data = vec![0x41u8; len];
        let c = aes_cbc_cipher(&key, &iv, &data).unwrap();
        assert_eq!(c.len(), get_padded_size(len));
        if len > 0 {
            assert_ne!(&c[..len.min(16)], &data[..len.min(16)]);
        }
    }
}

#[test]
fn update_iv_renews_the_iv() {
    let iv = [0u8; 16];
    let next = update_iv(&iv);
    assert_eq!(next.len(), 16);
    assert_ne!(next, iv);
    // SHA-256 of sixteen zero bytes begins with 37 4708ff...
    assert_eq!(next[0], 0x37);
    assert_eq!(next[1], 0x47);
    assert_eq!(update_iv(&iv), next);
}

#[test]
fn be_bytes_and_connection_iv() {
    assert_eq!(u64_to_be_bytes(259), 259u64.to_be_bytes());
    assert_eq!(u64_to_be_bytes(0x0102030405060708), [1, 2, 3, 4, 5, 6, 7, 8]);
    assert_eq!(connection_iv(259), update_iv(&259u64.to_be_bytes()));
    assert_eq!(connection_iv(259)[..4], [5, 236, 183, 226]);
}

#[test]
fn encrypted_request_uses_the_log_key() {
    let iv = [3u8; 16];
    let req = b"GET / HTTP/1.1\r\n\r\n";
    assert_eq!(get_encrypted_req(req, iv).unwrap(), aes_cbc_cipher(&LOG_KEY, &iv, req).unwrap());
}

#[test]
fn hex_writing() {
    assert_eq!(bytes_to_hex(&[]).unwrap(), "");
    assert_eq!(bytes_to_hex(&[0x00, 0x0f, 0xab, 0xff]).unwrap(), "000fabff");
    assert_eq!(bytes_to_hex(&[5, 236]).unwrap(), "05ec");
}

#[test]
fn ciphertext_blocks_depend_only_on_earlier_blocks() {
    let key = [5u8; 16];
    let iv = [6u8; 16];
    let mut d1 = vec![0x11u8; 40];
    let mut d2 = d1.clone();
    d1[35] = 0x99;
    d2.truncate(32);
    let c1 = aes_cbc_cipher(&key, &iv, &d1).unwrap();
    let c2 = aes_cbc_cipher(&key, &iv, &d2).unwrap();
    assert_eq!(c1[..32], c2[..32]);
    d1[20] = 0;
    let c3 = aes_cbc_cipher(&key, &iv, &d1).unwrap();
    assert_eq!(c1[..16], c3[..16]);
    assert_ne!(c1[16..32], c3[16..32]);
}

#[test]
fn hex_writing_is_injective_on_examples() {
    let samples: [&[u8]; 5] = [&[], &[0], &[0, 0], &[0x10], &[0x01]];
    for a in samples {
        for b in samples {
            assert_eq!(bytes_to_hex(a).unwrap() == bytes_to_hex(b).unwrap(), a == b);
        }
    }
}

#[test]
fn ciphertext_is_cbc_over_the_aes_block() {
    let key = [0x2bu8; 16];
    let iv = [0x10u8; 16];
    let data = b"twenty bytes of text";
    let c = aes_cbc_cipher(&key, &iv, data).unwrap();
    let aes = aes::Aes128::new(&key.into());
    let mut padded = data.to_vec();
    let p = 16 - data.len() % 16;
    padded.extend(std::iter::repeat(p as u8).take(p));
    let mut prev = iv;
    for (i, chunk) in padded.chunks(16).enumerate() {
        let mut block = [0u8; 16];
        for j in 0..16 {
            block[j] = chunk[j] ^ prev[j];
        }
        let mut ga = block.into();
        aes.encrypt_block(&mut ga);
        let out: [u8; 16] = ga.into();
        assert_eq!(&c[16 * i..16 * i + 16], &out);
        prev = out;
    }
}
