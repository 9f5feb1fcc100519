//! Agent secrets: how they are digested for storage.

use vstd::prelude::*;
use vstd::string::*;
use sha2::{Digest, Sha256};

verus! {

/// The SHA-256 digest of `data`.
pub uninterp spec fn sha256_digest(data: Seq<u8>) -> Seq<u8>;

/// `sha2::Sha256` over `data`: the 32-byte digest.
///
/// Trusted: the digest is named, not stated; the one further claim is its
/// length, which `Sha256`'s output size fixes at 32 bytes.
#[verifier::external_body]
fn sha256(data: &[u8]) -> (r: Vec<u8>)
    ensures
        r@ == sha256_digest(data@),
        r@.len() == 32,
{
    let mut hasher = Sha256::new();
    hasher.update(data);
    hasher.finalize().to_vec()
}

/// The lowercase hexadecimal digit of `d`.
pub open spec fn hex_digit(d: nat) -> char {
    if d == 0 {
        '0'
    } else
    if d == 1 {
        '1'
    } else
    if d == 2 {
        '2'
    } else
    if d == 3 {
        '3'
    } else
    if d == 4 {
        '4'
    } else
    if d == 5 {
        '5'
    } else
    if d == 6 {
        '6'
    } else
    if d == 7 {
        '7'
    } else
    if d == 8 {
        '8'
    } else
    if d == 9 {
        '9'
    } else
    if d == 10 {
        'a'
    } else
    if d == 11 {
        'b'
    } else
    if d == 12 {
        'c'
    } else
    if d == 13 {
        'd'
    } else
    if d == 14 {
        'e'
    } else {
        'f'
    }
}

/// The lowercase hexadecimal text of `bytes`, two digits per byte, as
/// formatting a digest with `{:x}` writes it.
pub open spec fn hex_lower(bytes: Seq<u8>) -> Seq<char>
    decreases bytes.len(),
{
    if bytes.len() == 0 {
        Seq::empty()
    } else {
        hex_lower(bytes.drop_last()) + seq![
            hex_digit((bytes.last() / 16) as nat),
            hex_digit((bytes.last() % 16) as nat),
        ]
    }
}

fn hex_digit_str(d: u8) -> (r: &'static str)
    requires
        d < 16,
    ensures
        r@ == seq![hex_digit(d as nat)],
{
    match d {
        0 => {
            proof {
                reveal_strlit("0");
            }
            "0"
        },
        1 => {
            proof {
                reveal_strlit("1");
            }
            "1"
        },
        2 => {
            proof {
                reveal_strlit("2");
            }
            "2"
        },
        3 => {
            proof {
                reveal_strlit("3");
            }
            "3"
        },
        4 => {
            proof {
                reveal_strlit("4");
            }
            "4"
        },
        5 => {
            proof {
                reveal_strlit("5");
            }
            "5"
        },
        6 => {
            proof {
                reveal_strlit("6");
            }
            "6"
        },
        7 => {
            proof {
                reveal_strlit("7");
            }
            "7"
        },
        8 => {
            proof {
                reveal_strlit("8");
            }
            "8"
        },
        9 => {
            proof {
                reveal_strlit("9");
            }
            "9"
        },
        10 => {
            proof {
                reveal_strlit("a");
            }
            "a"
        },
        11 => {
            proof {
                reveal_strlit("b");
            }
            "b"
        },
        12 => {
            proof {
                reveal_strlit("c");
            }
            "c"
        },
        13 => {
            proof {
                reveal_strlit("d");
            }
            "d"
        },
        14 => {
            proof {
                reveal_strlit("e");
            }
            "e"
        },
        _ => {
            proof {
                reveal_strlit("f");
            }
            "f"
        },
    }
}

/// The lowercase hexadecimal text of `bytes`; see `hex_lower`.
pub fn to_hex(bytes: &Vec<u8>) -> (r: String)
    ensures
        r@ == hex_lower(bytes@),
{
    let mut out = String::new();
    let mut i: usize = 0;
    while i < bytes.len()
        invariant
            0 <= i <= bytes@.len(),
            out@ == hex_lower(bytes@.take(i as int)),
        decreases bytes@.len() - i,
    {
        let b = bytes[i];
        let hi = hex_digit_str(b / 16);
        let lo = hex_digit_str(b % 16);
        proof {
            assert(bytes@.take(i + 1).drop_last() =~= bytes@.take(i as int));
            assert(bytes@.take(i + 1).last() == b);
            assert(out@ + hi@ + lo@ =~= hex_lower(bytes@.take(i + 1)));
        }
        out.append(hi);
        out.append(lo);
        i = i + 1;
    }
    proof {
        assert(bytes@.take(bytes@.len() as int) =~= bytes@);
    }
    out
}

/// The stored form of a secret: its SHA-256 digest in lowercase hex.
pub open spec fn secret_hash(secret: Seq<u8>) -> Seq<char> {
    hex_lower(sha256_digest(secret))
}

/// Digests a secret for storage; see `secret_hash`.
pub fn hash_secret(secret: &str) -> (r: String)
    ensures
        r@ == secret_hash(secret.spec_bytes()),
        r@.len() == 64,
{
    let bytes = secret.as_bytes();
    let digest = sha256(bytes);
    proof {
        lemma_hex_len(digest@);
    }
    to_hex(&digest)
}

proof fn lemma_hex_len(bytes: Seq<u8>)
    ensures
        hex_lower(bytes).len() == 2 * bytes.len(),
    decreases bytes.len(),
{
    if bytes.len() > 0 {
        lemma_hex_len(bytes.drop_last());
    }
}

} // verus!
