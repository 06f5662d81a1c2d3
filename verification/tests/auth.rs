use des::cipher::generic_array::GenericArray;
use des::cipher::{BlockDecrypt, KeyInit};
use des::Des;
use frd_vnc::auth::{
    vnc_des_challenge_response, vnc_des_key, VncAuthChallenge, DES_BLOCK_BYTES,
    VNC_AUTH_CHALLENGE_BYTES,
};

#[test]
fn key_derivation_vector() {
    assert_eq!(vnc_des_key("COW"), [0xC2, 0xF2, 0xEA, 0, 0, 0, 0, 0]);
}

#[test]
fn ecb_round_trip() {
    let challenge: VncAuthChallenge = core::array::from_fn(|i| i as u8 ^ 0xA5);
    let resp = vnc_des_challenge_response(&challenge, "PassW0rd");
    let decipher = Des::new_from_slice(&vnc_des_key("PassW0rd")).unwrap();
    let mut back = [0u8; VNC_AUTH_CHALLENGE_BYTES];
    for (i, chunk) in resp.chunks_exact(DES_BLOCK_BYTES).enumerate() {
        let mut block = GenericArray::clone_from_slice(chunk);
        decipher.decrypt_block(&mut block);
        let output_start = i * DES_BLOCK_BYTES;
        back[output_start..output_start + DES_BLOCK_BYTES].copy_from_slice(&block);
    }
    assert_eq!(back, challenge);
}

#[test]
fn only_the_first_eight_bytes_of_a_password_count() {
    assert_eq!(vnc_des_key("12345678"), vnc_des_key("12345678 and more"));
    assert_ne!(vnc_des_key("12345678"), vnc_des_key("12345677"));
    let challenge = [7u8; 16];
    assert_eq!(
        vnc_des_challenge_response(&challenge, "12345678"),
        vnc_des_challenge_response(&challenge, "12345678 and more")
    );
    assert_ne!(vnc_des_challenge_response(&challenge, "12345678"), challenge);
    assert_eq!(vnc_des_key(""), [0; 8]);
}

#[test]
fn every_byte_is_mirrored() {
    for byte in 0u8..=127 {
        let text = String::from_utf8(vec![byte]).unwrap();
        assert_eq!(vnc_des_key(&text)[0], byte.reverse_bits());
    }
    assert_eq!(vnc_des_key("é")[..2], [0xc3u8.reverse_bits(), 0xa9u8.reverse_bits()]);
}
