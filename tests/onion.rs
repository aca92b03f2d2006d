use sha3::{Digest, Sha3_256};
use tor_v3_vanity::pubkey_to_onion;

fn decode_lower(s: &str) -> Option<Vec<u8>> {
    base32::decode(base32::Alphabet::Rfc4648Lower { padding: false }, s)
}

fn checksum_of(pk: &[u8; 32]) -> [u8; 2] {
    let mut h = Sha3_256::new();
    h.update(b".onion checksum");
    h.update(pk);
    h.update([3u8]);
    let d = h.finalize();
    [d[0], d[1]]
}

#[test]
fn test_onion_format() {
    let pubkey = [0u8; 32];
    let onion = pubkey_to_onion(&pubkey);
    assert!(onion.ends_with(".onion"));
    assert_eq!(onion.len(), 62);
}

#[test]
fn onion_length_for_several_keys() {
    for b in [0u8, 1, 0x7f, 0xff] {
        let pk = [b; 32];
        let onion = pubkey_to_onion(&pk);
        assert_eq!(onion.len(), 62);
        assert!(onion.ends_with(".onion"));
        assert!(onion[..56].chars().all(|c| c.is_ascii_lowercase() || ('2'..='7').contains(&c)));
    }
}

#[test]
fn onion_is_deterministic() {
    let mut pk = [0u8; 32];
    for (i, b) in pk.iter_mut().enumerate() {
        *b = (i * 7) as u8;
    }
    assert_eq!(pubkey_to_onion(&pk), pubkey_to_onion(&pk));
}

#[test]
fn zero_key_name() {
    let pk = [0u8; 32];
    let onion = pubkey_to_onion(&pk);
    let name = &onion[..56];
    assert_eq!(name.len(), 56);
    assert!(name[..51].chars().all(|c| c == 'a'));
    assert!(name.ends_with('d'));
    let decoded = decode_lower(name).unwrap();
    let chk = checksum_of(&pk);
    let mut expected = vec![0u8; 32];
    expected.push(chk[0]);
    expected.push(chk[1]);
    expected.push(3);
    assert_eq!(decoded, expected);
}

#[test]
fn name_decodes_to_key_checksum_and_version() {
    let mut pk = [0u8; 32];
    for (i, b) in pk.iter_mut().enumerate() {
        *b = (255 - i * 5) as u8;
    }
    let onion = pubkey_to_onion(&pk);
    let decoded = decode_lower(&onion[..56]).unwrap();
    assert_eq!(decoded.len(), 35);
    assert_eq!(&decoded[..32], &pk[..]);
    assert_eq!(&decoded[32..34], &checksum_of(&pk)[..]);
    assert_eq!(decoded[34], 3);
}
