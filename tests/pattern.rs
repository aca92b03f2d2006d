use tor_v3_vanity::gpu::BytePrefix;
use tor_v3_vanity::pattern::{pattern_matches, pattern_matches_folded, validate_pattern, Position};
use tor_v3_vanity::targets::{Target, TargetSet};
use tor_v3_vanity::GeneratorError;

const ADDR: &str = "abcdefghijklmnopqrstuvwxyz234567abcdefghijklmnopqrstuvwx.onion";

#[test]
fn positions_have_labels() {
    assert_eq!(Position::Prefix.label(), "Prefix");
    assert_eq!(Position::Suffix.label(), "Suffix");
    assert_eq!(Position::Anywhere.label(), "Anywhere");
}

#[test]
fn matching_by_position() {
    assert!(pattern_matches(ADDR, "abc", Position::Prefix));
    assert!(!pattern_matches(ADDR, "bcd", Position::Prefix));
    assert!(pattern_matches(ADDR, "uvwx", Position::Suffix));
    assert!(!pattern_matches(ADDR, "onion", Position::Suffix));
    assert!(pattern_matches(ADDR, "567ab", Position::Anywhere));
    assert!(!pattern_matches(ADDR, "zz", Position::Anywhere));
    assert!(pattern_matches(ADDR, "", Position::Anywhere));
}

#[test]
fn matching_folds_pattern_case() {
    assert!(pattern_matches(ADDR, "ABC", Position::Prefix));
    assert!(!pattern_matches_folded(ADDR, "ABC", Position::Prefix));
    assert!(pattern_matches_folded(ADDR, "abc", Position::Prefix));
}

#[test]
fn pattern_validation() {
    assert!(validate_pattern("ab").is_ok());
    assert!(validate_pattern("abcdefghijkl").is_ok());
    match validate_pattern("!bad") {
        Err(GeneratorError::InvalidPrefix(p)) => assert_eq!(p, "!bad"),
        other => panic!("unexpected {:?}", other),
    }
    assert!(matches!(validate_pattern(""), Err(GeneratorError::InvalidPrefix(_))));
    assert!(matches!(validate_pattern("abcdefghijklm"), Err(GeneratorError::InvalidPrefix(_))));
    assert!(matches!(validate_pattern("Ab"), Err(GeneratorError::InvalidPrefix(_))));
    assert!(matches!(validate_pattern("a1"), Err(GeneratorError::InvalidPrefix(_))));
}

fn target(p: &str, position: Position) -> Target {
    Target { pattern: p.to_string(), position }
}

#[test]
fn target_set_collapses_duplicates() {
    let mut s = TargetSet::new();
    assert!(s.is_empty());
    assert!(s.insert(target("ab", Position::Prefix)));
    assert!(!s.insert(target("ab", Position::Prefix)));
    assert!(s.insert(target("ab", Position::Suffix)));
    assert_eq!(s.len(), 2);
    let t = TargetSet::from_prefixes(&vec!["a".to_string(), "b".to_string(), "a".to_string()]);
    assert_eq!(t.len(), 2);
}

#[test]
fn claim_hands_each_pattern_out_once() {
    let mut s = TargetSet::new();
    s.insert(target("abc", Position::Prefix));
    s.insert(target("zz", Position::Prefix));
    s.insert(target("uvwx", Position::Suffix));
    s.insert(target("567", Position::Anywhere));
    let mut hits = Vec::new();
    for _ in 0..6 {
        if let Some(t) = s.claim(ADDR) {
            hits.push(t.pattern);
        }
    }
    assert_eq!(hits, vec!["abc".to_string(), "uvwx".to_string(), "567".to_string()]);
    assert_eq!(s.len(), 1);
    assert_eq!(s.targets()[0].pattern, "zz");
}

#[test]
fn two_claims_on_one_hit_give_one_key() {
    let mut s = TargetSet::from_prefixes(&vec!["a".to_string()]);
    let first = s.claim(ADDR);
    let second = s.claim(ADDR);
    assert_eq!(first.map(|t| t.pattern), Some("a".to_string()));
    assert!(second.is_none());
    assert!(s.is_empty());
}

#[test]
fn byte_prefix_of_one_char() {
    let b = BytePrefix::from_pattern("a").unwrap();
    assert_eq!(b.bytes, vec![0u8]);
    assert_eq!(b.last_byte_idx, 0);
    assert_eq!(b.last_byte_mask, 0xF8);
    let mut pk = [0xffu8; 32];
    pk[0] = 0x07;
    assert!(b.matches_pubkey(&pk));
    pk[0] = 0x08;
    assert!(!b.matches_pubkey(&pk));
}

#[test]
fn byte_prefix_shapes() {
    let b = BytePrefix::from_pattern("ab").unwrap();
    assert_eq!(b.last_byte_idx, 1);
    assert_eq!(b.last_byte_mask, 0xC0);
    let b = BytePrefix::from_pattern("abcdefgh").unwrap();
    assert_eq!(b.last_byte_idx, 4);
    assert_eq!(b.last_byte_mask, 0xFF);
    let b = BytePrefix::from_pattern("").unwrap();
    assert_eq!(b.last_byte_idx, 0);
    assert_eq!(b.last_byte_mask, 0);
    assert!(b.matches_pubkey(&[0x5a; 32]));
    assert!(BytePrefix::from_pattern("a!").is_none());
    assert!(BytePrefix::from_pattern("abcdefghijklm").is_none());
}

#[test]
fn byte_prefix_agrees_with_address() {
    for i in 0u8..40 {
        let mut pk = [0u8; 32];
        for (j, b) in pk.iter_mut().enumerate() {
            *b = i.wrapping_mul(37).wrapping_add(j as u8 * 11);
        }
        let onion = tor_v3_vanity::pubkey_to_onion(&pk);
        for len in 0..=12 {
            let p = &onion[..len];
            let b = BytePrefix::from_pattern(p).unwrap();
            assert!(b.matches_pubkey(&pk));
            let mut other = String::from(p);
            if len > 0 {
                other.pop();
                other.push(if p.ends_with('a') { 'b' } else { 'a' });
                let b2 = BytePrefix::from_pattern(&other).unwrap();
                assert!(!b2.matches_pubkey(&pk));
            }
        }
    }
}
