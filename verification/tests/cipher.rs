use rand::RngCore;
use secm::cipher::{aes256_cbc_decrypt, aes256_cbc_encrypt, pad, unpad};
use secm::error::CipherError;

fn hex(s: &str) -> Vec<u8> {
    let digits: Vec<u8> = s.bytes().map(|b| (b as char).to_digit(16).unwrap() as u8).collect();
    digits.chunks(2).map(|p| p[0] * 16 + p[1]).collect()
}

fn key32(bytes: &[u8]) -> [u8; 32] {
    let mut key = [0u8; 32];
    key.copy_from_slice(bytes);
    key
}

fn iv16(bytes: &[u8]) -> [u8; 16] {
    let mut iv = [0u8; 16];
    iv.copy_from_slice(bytes);
    iv
}

#[test]
fn test_aes256_cbc() {
    let mut rng = rand::rngs::OsRng;

    let mut key = [0; 32];
    let mut iv = [0; 16];
    rng.fill_bytes(&mut key);
    rng.fill_bytes(&mut iv);

    let data = "Hello World";
    let encrypted_data = aes256_cbc_encrypt(data.as_bytes(), &key, &iv).unwrap();

    let buff = encrypted_data.clone();

    let decrypted_data = aes256_cbc_decrypt(buff.as_slice(), &key, &iv).unwrap();

    let result = String::from_utf8(decrypted_data).unwrap();

    assert_eq!(data, result);
    println!("{}", result);
}

#[test]
fn encrypts_the_published_vector() {
    let key = key32(&hex("603deb1015ca71be2b73aef0857d77811f352c073b6108d72d9810a30914dff4"));
    let iv = iv16(&hex("000102030405060708090a0b0c0d0e0f"));
    let plain = hex("6bc1bee22e409f96e93d7e117393172a");
    let cipher = aes256_cbc_encrypt(&plain, &key, &iv).unwrap();
    assert_eq!(cipher.len(), 32);
    assert_eq!(&cipher[..16], hex("f58c4c04d6e5f1ba779eabfb5f7bfbd6").as_slice());
    assert_eq!(aes256_cbc_decrypt(&cipher, &key, &iv), Ok(plain));
}

#[test]
fn ciphertext_length_is_the_next_block_boundary() {
    let key = [7u8; 32];
    let iv = [9u8; 16];
    assert_eq!(aes256_cbc_encrypt(b"", &key, &iv).unwrap().len(), 16);
    assert_eq!(aes256_cbc_encrypt(b"Hello World", &key, &iv).unwrap().len(), 16);
    assert_eq!(aes256_cbc_encrypt(&[1u8; 15], &key, &iv).unwrap().len(), 16);
    assert_eq!(aes256_cbc_encrypt(&[1u8; 16], &key, &iv).unwrap().len(), 32);
    assert_eq!(aes256_cbc_encrypt(&[1u8; 5000], &key, &iv).unwrap().len(), 5008);
}

#[test]
fn encryption_is_deterministic_and_round_trips() {
    let key = [3u8; 32];
    let iv = [4u8; 16];
    for n in [0usize, 1, 15, 16, 17, 31, 32, 33, 4095, 4096, 4097, 10000] {
        let plain: Vec<u8> = (0..n).map(|i| (i * 31 % 251) as u8).collect();
        let first = aes256_cbc_encrypt(&plain, &key, &iv).unwrap();
        let second = aes256_cbc_encrypt(&plain, &key, &iv).unwrap();
        assert_eq!(first, second);
        if n >= 16 {
            assert_ne!(&first[..n], plain.as_slice());
        }
        assert_eq!(aes256_cbc_decrypt(&first, &key, &iv), Ok(plain));
    }
}

#[test]
fn another_vector_gives_another_ciphertext() {
    let key = [3u8; 32];
    let one = aes256_cbc_encrypt(b"same plaintext", &key, &[0u8; 16]).unwrap();
    let two = aes256_cbc_encrypt(b"same plaintext", &key, &[1u8; 16]).unwrap();
    assert_ne!(one, two);
}

#[test]
fn decrypt_refuses_bad_lengths() {
    let key = [1u8; 32];
    let iv = [2u8; 16];
    assert_eq!(aes256_cbc_decrypt(b"", &key, &iv), Err(CipherError::InvalidLength));
    assert_eq!(aes256_cbc_decrypt(&[0u8; 15], &key, &iv), Err(CipherError::InvalidLength));
    assert_eq!(aes256_cbc_decrypt(&[0u8; 17], &key, &iv), Err(CipherError::InvalidLength));
}

#[test]
fn corrupt_ciphertext_is_refused() {
    let key = [5u8; 32];
    let iv = [6u8; 16];
    let mut cipher = aes256_cbc_encrypt(b"Hello World", &key, &iv).unwrap();
    cipher[3] ^= 0x01;
    assert_eq!(aes256_cbc_decrypt(&cipher, &key, &iv), Err(CipherError::InvalidPadding));
    let mut short = aes256_cbc_encrypt(b"Hello World", &key, &iv).unwrap();
    short.pop();
    assert_eq!(aes256_cbc_decrypt(&short, &key, &iv), Err(CipherError::InvalidLength));
}

#[test]
fn padding_fills_up_to_the_block() {
    assert_eq!(pad(b""), vec![16u8; 16]);
    assert_eq!(pad(b"abc"), [b"abc".as_slice(), &[13u8; 13]].concat());
    assert_eq!(pad(&[9u8; 16]), [[9u8; 16].as_slice(), &[16u8; 16]].concat());
    assert_eq!(pad(&[9u8; 31]).len(), 32);
    assert_eq!(pad(&[9u8; 31])[31], 1);
}

#[test]
fn unpadding_checks_every_padding_byte() {
    assert_eq!(unpad(&pad(b"abc")), Some(b"abc".to_vec()));
    assert_eq!(unpad(&[16u8; 16]), Some(Vec::new()));
    assert_eq!(unpad(b""), None);
    assert_eq!(unpad(&[1u8; 15]), None);
    let mut zero = [7u8; 16];
    zero[15] = 0;
    assert_eq!(unpad(&zero), None);
    let mut long = [17u8; 16];
    long[15] = 17;
    assert_eq!(unpad(&long), None);
    assert_eq!(unpad(&[32u8; 32]), None);
    let mut broken = pad(b"abc");
    broken[5] = 12;
    assert_eq!(unpad(&broken), None);
    let mut one = [7u8; 16];
    one[15] = 1;
    assert_eq!(unpad(&one), Some(vec![7u8; 15]));
}

#[test]
fn what_is_decrypted_is_one_to_sixteen_bytes_shorter() {
    let key = [11u8; 32];
    let iv = [12u8; 16];
    for n in [0usize, 1, 15, 16, 17, 32, 100] {
        let plain = vec![3u8; n];
        let cipher = aes256_cbc_encrypt(&plain, &key, &iv).unwrap();
        let back = aes256_cbc_decrypt(&cipher, &key, &iv).unwrap();
        assert!(back.len() < cipher.len() && cipher.len() <= back.len() + 16);
        assert_eq!(cipher.len() % 16, 0);
        assert_eq!(aes256_cbc_encrypt(&back, &key, &iv), Ok(cipher));
    }
}

#[test]
fn whatever_is_accepted_encrypts_to_itself_again() {
    let key = [21u8; 32];
    let iv = [22u8; 16];
    let mut accepted = 0;
    for seed in 0u32..2000 {
        let blocks: Vec<u8> = (0..32u32).map(|i| (seed.wrapping_mul(2654435761).wrapping_add(i * 40503) >> 7) as u8).collect();
        if let Ok(plain) = aes256_cbc_decrypt(&blocks, &key, &iv) {
            accepted += 1;
            assert!(plain.len() < 32 && 32 <= plain.len() + 16);
            assert_eq!(aes256_cbc_encrypt(&plain, &key, &iv), Ok(blocks));
        }
    }
    assert!(accepted > 0);
}
