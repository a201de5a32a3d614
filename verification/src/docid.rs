//! Document identifiers: the SHA-256-derived id of a document and the
//! decimal rendering of the creation timestamp that feeds into it.

use vstd::prelude::*;
use crate::types::Principal;
use sha2::{Digest, Sha256};

verus! {

/// The decimal digit characters.
pub open spec fn digit_char(d: nat) -> char {
    if d == 0 {
        '0'
    } else if d == 1 {
        '1'
    } else if d == 2 {
        '2'
    } else if d == 3 {
        '3'
    } else if d == 4 {
        '4'
    } else if d == 5 {
        '5'
    } else if d == 6 {
        '6'
    } else if d == 7 {
        '7'
    } else if d == 8 {
        '8'
    } else {
        '9'
    }
}

/// The decimal rendering of `n`, most significant digit first, with no
/// leading zeros (a single `'0'` for zero itself).
pub open spec fn dec_of(n: nat) -> Seq<char>
    decreases n,
{
    if n < 10 {
        seq![digit_char(n)]
    } else {
        dec_of(n / 10) + seq![digit_char(n % 10)]
    }
}

fn digit_str(d: u64) -> (r: &'static str)
    requires
        d < 10,
    ensures
        r@ == seq![digit_char(d as nat)],
{
    let r: &'static str = if d == 0 {
        "0"
    } else if d == 1 {
        "1"
    } else if d == 2 {
        "2"
    } else if d == 3 {
        "3"
    } else if d == 4 {
        "4"
    } else if d == 5 {
        "5"
    } else if d == 6 {
        "6"
    } else if d == 7 {
        "7"
    } else if d == 8 {
        "8"
    } else {
        "9"
    };
    proof {
        reveal_strlit("0");
        reveal_strlit("1");
        reveal_strlit("2");
        reveal_strlit("3");
        reveal_strlit("4");
        reveal_strlit("5");
        reveal_strlit("6");
        reveal_strlit("7");
        reveal_strlit("8");
        reveal_strlit("9");
        assert(r@ =~= seq![digit_char(d as nat)]);
    }
    r
}

/// Renders `n` in decimal, exactly as [`dec_of`] describes.
pub fn u64_to_decimal(n: u64) -> (r: String)
    ensures
        r@ == dec_of(n as nat),
    decreases n,
{
    if n < 10 {
        String::from_str(digit_str(n))
    } else {
        let mut s = u64_to_decimal(n / 10);
        s.append(digit_str(n % 10));
        s
    }
}

/// Every decimal rendering has at least one digit, and a number of ten or
/// more has at least two.
pub proof fn lemma_dec_of_len(n: nat)
    ensures
        dec_of(n).len() >= 1,
        n >= 10 ==> dec_of(n).len() >= 2,
    decreases n,
{
    if n >= 10 {
        lemma_dec_of_len(n / 10);
    }
}

/// Decimal rendering is injective: distinct numbers render to distinct
/// character sequences.
pub proof fn lemma_dec_of_injective(a: nat, b: nat)
    requires
        a != b,
    ensures
        dec_of(a) != dec_of(b),
    decreases a + b,
{
    lemma_dec_of_len(a);
    lemma_dec_of_len(b);
    if a < 10 && b < 10 {
        assert(dec_of(a)[0] == digit_char(a));
        assert(dec_of(b)[0] == digit_char(b));
    } else if a < 10 {
        assert(dec_of(a).len() < dec_of(b).len());
    } else if b < 10 {
        assert(dec_of(a).len() > dec_of(b).len());
    } else {
        let sa = dec_of(a / 10);
        let sb = dec_of(b / 10);
        let ca = digit_char(a % 10);
        let cb = digit_char(b % 10);
        assert(dec_of(a) == sa + seq![ca]);
        assert(dec_of(b) == sb + seq![cb]);
        if dec_of(a) == dec_of(b) {
            assert(sa.len() + 1 == sb.len() + 1);
            assert((sa + seq![ca])[sa.len() as int] == ca);
            assert((sb + seq![cb])[sb.len() as int] == cb);
            assert(ca == cb);
            if a % 10 != b % 10 {
                assert(false);
            } else {
                assert(a / 10 != b / 10);
                lemma_dec_of_injective(a / 10, b / 10);
                assert(sa =~= (sa + seq![ca]).subrange(0, sa.len() as int));
                assert(sb =~= (sb + seq![cb]).subrange(0, sb.len() as int));
                assert(false);
            }
        }
    }
}

/// The lowercase-hex rendering of the SHA-256 digest of the
/// concatenation of the UTF-8 bytes of `name`, the bytes of `owner`, and
/// the UTF-8 bytes of `stamp`. The digest is a function of its input
/// alone, so the result is named rather than written out.
pub uninterp spec fn sha256_hex_of(name: Seq<char>, owner: Seq<u8>, stamp: Seq<char>) -> Seq<char>;

/// Relies on sha2's `Sha256`: the digest is 32 bytes, a function of the
/// hashed bytes alone, and its `LowerHex` rendering spells each byte as
/// two lowercase hex digits, 64 characters in all.
#[verifier::external_body]
fn sha256_hex(name: &str, owner: &Vec<u8>, stamp: &str) -> (r: String)
    ensures
        r@ == sha256_hex_of(name@, owner@, stamp@),
        r@.len() == 64,
{
    let mut hasher = Sha256::new();
    hasher.update(name.as_bytes());
    hasher.update(owner.as_slice());
    hasher.update(stamp.as_bytes());
    format!("{:x}", hasher.finalize())
}

/// Derives a document id from its name, its owner and the creation
/// timestamp: the lowercase hex of `SHA256(name ‖ owner ‖ decimal(now))`.
/// The id does not depend on the document's contents.
pub fn generate_document_id(name: &str, owner: &Principal, now: u64) -> (r: String)
    ensures
        r@ == sha256_hex_of(name@, owner@, dec_of(now as nat)),
        r@.len() == 64,
{
    let stamp = u64_to_decimal(now);
    sha256_hex(name, &owner.bytes, stamp.as_str())
}

} // verus!
