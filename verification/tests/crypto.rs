use tempestarii::cryptography::{decrypt, encrypt, generate_keys};
use tempestarii::microchip::MicrochipPlugin;
use tempestarii::CoreError;

fn fresh_plugin() -> MicrochipPlugin {
    MicrochipPlugin {
        public_key: Vec::new(),
        private_key: Vec::new(),
        command_pool: Vec::new(),
        shutdown: false,
    }
}

#[test]
fn crypto_generate_keys_installs_fresh_material() {
    let mut plugin = fresh_plugin();
    plugin.command_pool.push(tempestarii::microchip::MicrochipCommand {
        targets: vec!["t1".to_string()],
        command: "whoami".to_string(),
    });
    generate_keys(&mut plugin).unwrap();
    assert_eq!(plugin.public_key.len(), 32);
    assert_eq!(plugin.private_key.len(), 32);
    // The pool and the shutdown flag are untouched.
    assert_eq!(plugin.command_pool.len(), 1);
    assert!(!plugin.shutdown);
}

#[test]
fn crypto_seal_and_open_round_trip() {
    let mut plugin = fresh_plugin();
    generate_keys(&mut plugin).unwrap();
    let key = plugin.private_key.clone();
    let message = b"on hail and thunder".to_vec();
    let sealed = encrypt(&key, message.clone()).unwrap();
    assert_eq!(sealed.len(), message.len() + 40);
    assert_ne!(&sealed[40..], message.as_slice());
    let opened = decrypt(&key, sealed).unwrap();
    assert_eq!(opened, message);
}

#[test]
fn crypto_open_rejects_the_wrong_key() {
    let mut plugin = fresh_plugin();
    generate_keys(&mut plugin).unwrap();
    let sealed = encrypt(&plugin.private_key, b"secret".to_vec()).unwrap();
    let mut other = fresh_plugin();
    generate_keys(&mut other).unwrap();
    let r = decrypt(&other.private_key, sealed);
    assert_eq!(r.unwrap_err(), CoreError::DecodingError);
}

#[test]
fn crypto_open_rejects_a_tampered_buffer() {
    let mut plugin = fresh_plugin();
    generate_keys(&mut plugin).unwrap();
    let mut sealed = encrypt(&plugin.private_key, b"secret".to_vec()).unwrap();
    let last = sealed.len() - 1;
    sealed[last] ^= 1;
    let r = decrypt(&plugin.private_key, sealed);
    assert_eq!(r.unwrap_err(), CoreError::DecodingError);
}

#[test]
fn crypto_seal_rejects_an_empty_message() {
    let mut plugin = fresh_plugin();
    generate_keys(&mut plugin).unwrap();
    let r = encrypt(&plugin.private_key, Vec::new());
    assert_eq!(r.unwrap_err(), CoreError::EncodingError);
}

#[test]
fn crypto_seal_rejects_a_short_key() {
    let r = encrypt(&[0u8; 16], b"secret".to_vec());
    assert_eq!(r.unwrap_err(), CoreError::EncodingError);
}

#[test]
fn crypto_open_rejects_a_short_buffer() {
    let r = decrypt(&[0u8; 32], vec![0u8; 40]);
    assert_eq!(r.unwrap_err(), CoreError::DecodingError);
}
