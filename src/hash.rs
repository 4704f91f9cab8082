//! Checking downloaded archives against their declared digests. The
//! digests of the file are computed by the caller, which reads it.
use vstd::prelude::*;
use vstd::string::StringSliceAdditionalSpecFns;
use vstd::utf8::encode_utf8;
use crate::config::FileHash;

verus! {

/// Value of one hex digit, either case.
pub open spec fn hex_digit_value(b: u8) -> Option<u8> {
    if 48 <= b <= 57 {
        Some((b - 48) as u8)
    } else if 65 <= b <= 70 {
        Some((b - 55) as u8)
    } else if 97 <= b <= 102 {
        Some((b - 87) as u8)
    } else {
        None
    }
}

/// The bytes a hex text stands for: two digits per byte, high digit first.
pub open spec fn hex_decoded(s: Seq<u8>) -> Option<Seq<u8>> {
    if s.len() % 2 == 0 && forall|i: int| 0 <= i < s.len() ==> (#[trigger] hex_digit_value(s[i])) is Some {
        Some(
            Seq::new(
                (s.len() / 2) as nat,
                |i: int| (hex_digit_value(s[2 * i])->Some_0 * 16 + hex_digit_value(s[2 * i + 1])->Some_0) as u8,
            ),
        )
    } else {
        None
    }
}

/// Relies on `hex::decode`: an even number of hex digits, of either case,
/// decodes two digits per byte, high digit first; anything else is refused.
#[verifier::external_body]
fn decode_hex(s: &str) -> (r: Option<Vec<u8>>)
    ensures
        match hex_decoded(s.spec_bytes()) {
            Some(b) => r matches Some(v) && v@ == b,
            None => r is None,
        },
{
    hex::decode(s).ok()
}

/// Why a declared digest was not met.
#[derive(Clone, Copy, Debug, PartialEq, Eq, Structural)]
pub enum DigestError {
    /// The declared digest is not hex.
    InvalidHex,
    Mismatch,
}

/// Compares a computed digest with a declared hex digest.
pub fn check_digest(declared: &str, computed: &Vec<u8>) -> (r: Result<(), DigestError>)
    ensures
        match hex_decoded(declared.spec_bytes()) {
            Some(b) => if b == computed@ {
                r is Ok
            } else {
                r == Err::<(), DigestError>(DigestError::Mismatch)
            },
            None => r == Err::<(), DigestError>(DigestError::InvalidHex),
        },
{
    let expected = match decode_hex(declared) {
        Some(b) => b,
        None => return Err(DigestError::InvalidHex),
    };
    if expected.len() != computed.len() {
        return Err(DigestError::Mismatch);
    }
    let mut i: usize = 0;
    while i < expected.len()
        invariant
            hex_decoded(declared.spec_bytes()) == Some(expected@),
            expected@.len() == computed@.len(),
            i <= expected@.len(),
            forall|k: int| 0 <= k < i ==> expected@[k] == computed@[k],
        decreases expected@.len() - i,
    {
        if expected[i] != computed[i] {
            assert(expected@[i as int] != computed@[i as int]);
            return Err(DigestError::Mismatch);
        }
        i = i + 1;
    }
    assert(expected@ =~= computed@);
    Ok(())
}

/// A failed verification: which algorithm, and how.
#[derive(Clone, Copy, Debug, PartialEq, Eq, Structural)]
pub enum HashError {
    Sha1(DigestError),
    Sha256(DigestError),
}

pub open spec fn digest_outcome(declared: Seq<u8>, computed: Seq<u8>) -> Result<(), DigestError> {
    match hex_decoded(declared) {
        Some(b) => if b == computed {
            Ok(())
        } else {
            Err(DigestError::Mismatch)
        },
        None => Err(DigestError::InvalidHex),
    }
}

/// Verifies the declared digests that are present, SHA-1 first. The
/// caller passes the digests of the file for each declared algorithm.
pub fn verify_hash(hash: &FileHash, sha1_of_file: Option<&Vec<u8>>, sha256_of_file: Option<&Vec<u8>>) -> (r: Result<(), HashError>)
    requires
        hash.sha1 is Some ==> sha1_of_file is Some,
        hash.sha256 is Some ==> sha256_of_file is Some,
    ensures
        r == match hash.sha1 {
            Some(d) => match digest_outcome(encode_utf8(d@), sha1_of_file->Some_0@) {
                Err(e) => Err(HashError::Sha1(e)),
                Ok(_) => match hash.sha256 {
                    Some(d2) => match digest_outcome(encode_utf8(d2@), sha256_of_file->Some_0@) {
                        Err(e) => Err(HashError::Sha256(e)),
                        Ok(_) => Ok(()),
                    },
                    None => Ok(()),
                },
            },
            None => match hash.sha256 {
                Some(d2) => match digest_outcome(encode_utf8(d2@), sha256_of_file->Some_0@) {
                    Err(e) => Err(HashError::Sha256(e)),
                    Ok(_) => Ok(()),
                },
                None => Ok(()),
            },
        },
{
    if let Some(d) = &hash.sha1 {
        let computed = sha1_of_file.unwrap();
        if let Err(e) = check_digest(d.as_str(), computed) {
            return Err(HashError::Sha1(e));
        }
    }
    if let Some(d) = &hash.sha256 {
        let computed = sha256_of_file.unwrap();
        if let Err(e) = check_digest(d.as_str(), computed) {
            return Err(HashError::Sha256(e));
        }
    }
    Ok(())
}

} // verus!
