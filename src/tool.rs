//! The output lines of the external CUDA search program: rate reports and
//! the hex scalars of keys it found.

use vstd::prelude::*;
use vstd::string::*;
use crate::keyfile::{
    hostname_file, onion_dir_name, public_key_file, public_key_tag, secret_key_tag,
    HiddenServiceFiles,
};
use crate::keys::{scalar_base_point, scalar_base_point_of, sha512, sha512_of};
use crate::onion::{onion_address_of, pubkey_to_onion};
use crate::pattern::{chars_of, starts_with, trim_onion};

verus! {

/// Whether `c` is an ASCII hex digit, of either case.
pub open spec fn is_hex_digit(c: char) -> bool {
    ('0' <= c && c <= '9') || ('a' <= c && c <= 'f') || ('A' <= c && c <= 'F')
}

/// The value of a hex digit.
pub open spec fn hex_value(c: char) -> nat {
    if '0' <= c && c <= '9' {
        (c as u32 - 48) as nat
    } else if 'a' <= c && c <= 'f' {
        (c as u32 - 87) as nat
    } else {
        (c as u32 - 55) as nat
    }
}

/// `s` is 64 hex digits.
pub open spec fn is_hex64(s: Seq<char>) -> bool {
    s.len() == 64 && forall|i: int| 0 <= i < 64 ==> #[trigger] is_hex_digit(s[i])
}

/// Byte `i` of the hex text `s`: two digits, high digit first.
pub open spec fn hex_byte(s: Seq<char>, i: int) -> nat {
    16 * hex_value(s[2 * i]) + hex_value(s[2 * i + 1])
}

fn hex_digit_value(c: char) -> (r: Option<u8>)
    ensures
        r is Some <==> is_hex_digit(c),
        r matches Some(v) ==> v == hex_value(c) && v < 16,
{
    if '0' <= c && c <= '9' {
        Some((c as u32 - 48) as u8)
    } else if 'a' <= c && c <= 'f' {
        Some((c as u32 - 87) as u8)
    } else if 'A' <= c && c <= 'F' {
        Some((c as u32 - 55) as u8)
    } else {
        None
    }
}

/// The 32 bytes that 64 hex digits spell; `None` for any other text.
pub fn hex_to_bytes(hex: &str) -> (r: Option<[u8; 32]>)
    ensures
        r is Some <==> is_hex64(hex@),
        r matches Some(b) ==> forall|i: int| 0 <= i < 32 ==> b@[i] == hex_byte(hex@, i),
{
    let cs = chars_of(hex);
    if cs.len() != 64 {
        return None;
    }
    let mut bytes = [0u8; 32];
    let mut i: usize = 0;
    while i < 32
        invariant
            cs@ == hex@,
            cs@.len() == 64,
            i <= 32,
            forall|j: int| 0 <= j < 2 * i ==> #[trigger] is_hex_digit(cs@[j]),
            forall|j: int| 0 <= j < i ==> bytes@[j] == hex_byte(hex@, j),
        decreases 32 - i,
    {
        let hi = hex_digit_value(cs[2 * i]);
        let lo = hex_digit_value(cs[2 * i + 1]);
        match (hi, lo) {
            (Some(h), Some(l)) => {
                bytes[i] = h * 16 + l;
            },
            _ => {
                return None;
            },
        }
        i = i + 1;
    }
    Some(bytes)
}

/// What a line of the program's output says.
#[derive(Debug, Clone)]
pub enum ToolLine {
    /// A rate report; the text after `KEYRATE:`.
    KeyRate(String),
    /// The secret scalar of a found key.
    Scalar([u8; 32]),
    /// Anything else.
    Ignored,
}

/// Read one line of the program's output.
pub fn classify_tool_line(line: &str) -> (r: ToolLine)
    ensures
        starts_with(line@, "KEYRATE:"@) ==> (r matches ToolLine::KeyRate(rest) && rest@
            == line@.subrange(8, line@.len() as int)),
        !starts_with(line@, "KEYRATE:"@) && is_hex64(line@) ==> (r matches ToolLine::Scalar(b)
            && forall|i: int| 0 <= i < 32 ==> b@[i] == hex_byte(line@, i)),
        !starts_with(line@, "KEYRATE:"@) && !is_hex64(line@) ==> r is Ignored,
{
    proof {
        reveal_strlit("KEYRATE:");
    }
    let cs = chars_of(line);
    let tag: Vec<char> = vec!['K', 'E', 'Y', 'R', 'A', 'T', 'E', ':'];
    assert(tag@ =~= "KEYRATE:"@);
    assert(cs@.subrange(0, cs@.len() as int) =~= cs@);
    if crate::pattern::matches_in(&cs, cs.len(), &tag, crate::pattern::Position::Prefix) {
        let rest = line.substring_char(8, cs.len());
        return ToolLine::KeyRate(String::from_str(rest));
    }
    match hex_to_bytes(line) {
        Some(b) => ToolLine::Scalar(b),
        None => ToolLine::Ignored,
    }
}

/// A key that the program found, given by its scalar.
#[derive(Debug, Clone)]
pub struct ScalarKey {
    pub scalar: [u8; 32],
    pub public_key: [u8; 32],
    pub onion: String,
}

/// The public key and address of a secret scalar.
pub fn derive_scalar_key(scalar: [u8; 32]) -> (r: ScalarKey)
    ensures
        r.scalar == scalar,
        r.public_key@ == scalar_base_point_of(scalar@),
        r.onion@ == onion_address_of(r.public_key@),
{
    let public_key = scalar_base_point(&scalar);
    let onion = pubkey_to_onion(&public_key);
    ScalarKey { scalar, public_key, onion }
}

/// The hidden-service directory of a key given by its scalar. The program
/// reports no nonce prefix, so the second half of the expanded secret is the
/// second half of the SHA-512 digest of the scalar: secret material that the
/// public key does not reveal.
pub fn scalar_key_files(k: &ScalarKey) -> (r: HiddenServiceFiles)
    ensures
        r.dir_name@ == trim_onion(k.onion@),
        r.hostname@ == k.onion@ + seq!['\n'],
        r.public_key@ == public_key_tag() + k.public_key@,
        sha512_of(k.scalar@).len() == 64,
        r.secret_key@ == secret_key_tag() + k.scalar@ + sha512_of(k.scalar@).subrange(32, 64),
        r.secret_key@.len() == 96,
{
    let digest = sha512(k.scalar.as_slice());
    let mut expanded = [0u8; 64];
    let mut i: usize = 0;
    while i < 32
        invariant
            i <= 32,
            digest@ == sha512_of(k.scalar@),
            forall|j: int| 0 <= j < i ==> expanded@[j] == k.scalar@[j],
            forall|j: int| 32 <= j < 32 + i ==> expanded@[j] == digest@[j],
        decreases 32 - i,
    {
        expanded[i] = k.scalar[i];
        expanded[32 + i] = digest[32 + i];
        i = i + 1;
    }
    assert(expanded@ =~= k.scalar@ + digest@.subrange(32, 64));
    HiddenServiceFiles {
        dir_name: onion_dir_name(k.onion.as_str()),
        hostname: hostname_file(k.onion.as_str()),
        public_key: public_key_file(&k.public_key),
        secret_key: crate::keyfile::secret_key_file(&expanded),
    }
}

} // verus!
