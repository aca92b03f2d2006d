use curve25519_dalek::constants::ED25519_BASEPOINT_POINT;
use curve25519_dalek::Scalar;
use sha2::{Digest, Sha512};
use tor_v3_vanity::engine::{
    candidate_files, candidates_per_launch, derive_candidate, draw_candidate, launch_geometry,
    reconcile_device_hit, run_outcome, validate_targets, worker_continues,
};
use tor_v3_vanity::keyfile::{expanded_secret_key, hidden_service_files};
use tor_v3_vanity::pattern::Position;
use tor_v3_vanity::targets::Target;
use tor_v3_vanity::tool::{classify_tool_line, derive_scalar_key, hex_to_bytes, scalar_key_files, ToolLine};
use tor_v3_vanity::{pubkey_to_onion, GeneratorError};

const PUBLIC_TAG: &[u8] = b"== ed25519v1-public: type0 ==\0\0\0";
const SECRET_TAG: &[u8] = b"== ed25519v1-secret: type0 ==\0\0\0";

fn seed_of(n: u8) -> [u8; 32] {
    let mut s = [0u8; 32];
    for (i, b) in s.iter_mut().enumerate() {
        *b = n.wrapping_add(i as u8).wrapping_mul(13);
    }
    s
}

#[test]
fn candidate_is_derived_from_its_seed() {
    let seed = seed_of(1);
    let c = derive_candidate(seed);
    let expected = ed25519_dalek::SigningKey::from_bytes(&seed).verifying_key().to_bytes();
    assert_eq!(c.seed, seed);
    assert_eq!(c.public_key, expected);
    assert_eq!(c.onion, pubkey_to_onion(&expected));
}

#[test]
fn expanded_secret_is_clamped_sha512() {
    let seed = seed_of(2);
    let h = Sha512::digest(seed);
    let mut expected = [0u8; 64];
    expected.copy_from_slice(&h);
    expected[0] &= 248;
    expected[31] &= 127;
    expected[31] |= 64;
    let got = expanded_secret_key(&seed);
    assert_eq!(got, expected);
    assert_eq!(got[0] & 7, 0);
    assert_eq!(got[31] & 0x80, 0);
    assert_eq!(got[31] & 0x40, 0x40);
}

#[test]
fn key_files_are_well_formed() {
    let c = derive_candidate(seed_of(3));
    let f = candidate_files(&c);
    assert_eq!(f.dir_name, c.onion.trim_end_matches(".onion"));
    assert_eq!(f.hostname, format!("{}\n", c.onion));
    assert_eq!(f.public_key.len(), 64);
    assert_eq!(&f.public_key[..32], PUBLIC_TAG);
    assert_eq!(&f.public_key[32..], &c.public_key[..]);
    assert_eq!(pubkey_to_onion(f.public_key[32..].try_into().unwrap()), c.onion);
    assert_eq!(f.secret_key.len(), 96);
    assert_eq!(&f.secret_key[..32], SECRET_TAG);
    let mut scalar = [0u8; 32];
    scalar.copy_from_slice(&f.secret_key[32..64]);
    let point = (Scalar::from_bytes_mod_order(scalar) * ED25519_BASEPOINT_POINT).compress();
    assert_eq!(point.to_bytes(), c.public_key);
    let again = hidden_service_files(&c.seed, &c.public_key, &c.onion);
    assert_eq!(again.secret_key, f.secret_key);
}

#[test]
fn run_validation() {
    match validate_targets(&vec!["!bad".to_string()]) {
        Err(GeneratorError::InvalidPrefix(p)) => assert_eq!(p, "!bad"),
        _ => panic!("expected an invalid prefix"),
    }
    match validate_targets(&vec!["ab".to_string(), "x!".to_string(), "!y".to_string()]) {
        Err(GeneratorError::InvalidPrefix(p)) => assert_eq!(p, "x!"),
        _ => panic!("expected an invalid prefix"),
    }
    assert!(matches!(validate_targets(&vec![]), Err(GeneratorError::NoPatterns)));
    let t = validate_targets(&vec!["ab".to_string(), "cd".to_string(), "ab".to_string()]).unwrap();
    assert_eq!(t.len(), 2);
}

#[test]
fn run_outcomes() {
    assert!(run_outcome(false, 0, None).is_ok());
    assert!(run_outcome(true, 0, None).is_ok());
    assert!(matches!(run_outcome(true, 1, None), Err(GeneratorError::Stopped)));
    assert!(run_outcome(false, 1, None).is_ok());
    match run_outcome(true, 1, Some("GPU 0 error: boom".to_string())) {
        Err(GeneratorError::Cuda(m)) => assert_eq!(m, "GPU 0 error: boom"),
        _ => panic!("expected a device error"),
    }
    assert!(worker_continues(false, 2));
    assert!(!worker_continues(true, 2));
    assert!(!worker_continues(false, 0));
}

#[test]
fn finds_a_one_char_prefix() {
    let mut targets = validate_targets(&vec!["a".to_string()]).unwrap();
    let mut found = Vec::new();
    let mut draws = 0;
    while worker_continues(false, targets.len()) {
        draws += 1;
        assert!(draws < 100_000);
        let c = draw_candidate().unwrap();
        if let Some(t) = targets.claim(&c.onion) {
            found.push((t, c));
        }
    }
    assert_eq!(found.len(), 1);
    let (t, c) = &found[0];
    assert_eq!(t.pattern, "a");
    assert!(c.onion.starts_with('a'));
    let files = candidate_files(c);
    assert!(files.dir_name.starts_with('a'));
    assert!(run_outcome(false, targets.len(), None).is_ok());
}

#[test]
fn cancel_after_first_hit_stops() {
    let mut targets = validate_targets(&vec!["ab".to_string(), "cd".to_string()]).unwrap();
    let mut hits = 0;
    let mut cancelled = false;
    let mut draws = 0;
    while worker_continues(cancelled, targets.len()) {
        draws += 1;
        assert!(draws < 1_000_000);
        let c = draw_candidate().unwrap();
        if targets.claim(&c.onion).is_some() {
            hits += 1;
            cancelled = true;
        }
    }
    assert_eq!(hits, 1);
    assert_eq!(targets.len(), 1);
    assert!(matches!(run_outcome(cancelled, targets.len(), None), Err(GeneratorError::Stopped)));
}

#[test]
fn launch_shapes() {
    assert_eq!(launch_geometry(1024, 64, 1024, 65536, 20).unwrap(), (1024, 20));
    assert_eq!(launch_geometry(1024, 128, 1024, 65536, 10).unwrap(), (512, 20));
    assert_eq!(launch_geometry(256, 0, 1024, 65536, 4).unwrap(), (256, 16));
    assert!(matches!(launch_geometry(0, 32, 1024, 65536, 4), Err(GeneratorError::Cuda(_))));
    assert_eq!(candidates_per_launch(512, 20), 10_240);
    assert_eq!(candidates_per_launch(u32::MAX, u32::MAX), (u32::MAX as u64) * (u32::MAX as u64));
}

#[test]
fn device_hits_are_checked_on_the_host() {
    let out = seed_of(4);
    let c = derive_candidate(out);
    let first: String = c.onion[..1].to_string();
    let good = Target { pattern: first.clone(), position: Position::Prefix };
    let hit = reconcile_device_hit(out, &good).unwrap();
    assert_eq!(hit.public_key, c.public_key);
    let wrong = if first == "a" { "b" } else { "a" };
    let bad = Target { pattern: wrong.to_string(), position: Position::Prefix };
    assert!(reconcile_device_hit(out, &bad).is_none());
}

#[test]
fn hex_lines() {
    let line = "00ff10A0".repeat(8);
    let b = hex_to_bytes(&line).unwrap();
    assert_eq!(&b[..4], &[0x00, 0xff, 0x10, 0xa0]);
    assert!(hex_to_bytes(&line[..62]).is_none());
    assert!(hex_to_bytes(&"zz".repeat(32)).is_none());
    match classify_tool_line("KEYRATE: 123.5 million keys/second") {
        ToolLine::KeyRate(rest) => assert_eq!(rest, " 123.5 million keys/second"),
        _ => panic!("expected a rate"),
    }
    assert!(matches!(classify_tool_line(&line), ToolLine::Scalar(s) if s == b));
    assert!(matches!(classify_tool_line("hello"), ToolLine::Ignored));
}

#[test]
fn scalar_keys_rederive() {
    let mut scalar = [0u8; 32];
    scalar[0] = 9;
    let k = derive_scalar_key(scalar);
    let expected = (Scalar::from_bytes_mod_order(scalar) * ED25519_BASEPOINT_POINT).compress().to_bytes();
    assert_eq!(k.public_key, expected);
    assert_eq!(k.onion, pubkey_to_onion(&expected));
    let f = scalar_key_files(&k);
    assert_eq!(f.secret_key.len(), 96);
    assert_eq!(&f.secret_key[..32], SECRET_TAG);
    assert_eq!(&f.secret_key[32..64], &scalar[..]);
    assert_eq!(&f.secret_key[64..], &Sha512::digest(scalar)[32..]);
    assert_ne!(&f.secret_key[64..], &expected[..]);
}
