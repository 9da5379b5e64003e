//! Canonical block serialization and hashing.
//!
//! A block's digest is the SHA-256 hash of a canonical JSON rendering of its
//! fields, with the `hash` field held at the empty string, written as a
//! lowercase hex string. The JSON rendering (object with the fields in
//! declaration order, strings escaped as JSON requires) is specified and
//! verified here; only the SHA-256 compression itself is delegated to an
//! outside crate.

use vstd::prelude::*;
use vstd::string::StrSliceExecFns;
use vstd::string::StringExecFns;
use sha2::{Digest, Sha256};

verus! {

/// The lowercase hex character for a digit value below 16.
pub open spec fn hex_char(d: nat) -> char {
    if d == 0 {
        '0'
    } else if d == 1 {
        '1'
    } else if d == 2 {
        '2'
    } else if d == 3 {
        '3'
    } else if d == 4 {
        '4'
    } else if d == 5 {
        '5'
    } else if d == 6 {
        '6'
    } else if d == 7 {
        '7'
    } else if d == 8 {
        '8'
    } else if d == 9 {
        '9'
    } else if d == 10 {
        'a'
    } else if d == 11 {
        'b'
    } else if d == 12 {
        'c'
    } else if d == 13 {
        'd'
    } else if d == 14 {
        'e'
    } else {
        'f'
    }
}

/// The decimal rendering of a natural number, without leading zeros
/// (a single `'0'` for zero itself).
pub open spec fn dec_str(n: nat) -> Seq<char>
    decreases n,
{
    if n < 10 {
        seq![hex_char(n)]
    } else {
        dec_str(n / 10) + seq![hex_char(n % 10)]
    }
}

/// Two lowercase hex characters for one byte, high nibble first.
pub open spec fn byte_hex(b: u8) -> Seq<char> {
    seq![hex_char((b / 16) as nat), hex_char((b % 16) as nat)]
}

/// The lowercase hex rendering of a byte string.
pub open spec fn hex_of(bytes: Seq<u8>) -> Seq<char>
    decreases bytes.len(),
{
    if bytes.len() == 0 {
        Seq::<char>::empty()
    } else {
        hex_of(bytes.drop_last()) + byte_hex(bytes.last())
    }
}

/// How one character is written inside a JSON string literal: quote and
/// backslash get a backslash escape, the named control characters get their
/// short escapes, the remaining control characters are written as
/// `\u00` and two lowercase hex digits, and everything else stands as is.
pub open spec fn escape_char(c: char) -> Seq<char> {
    if c == '"' {
        seq!['\\', '"']
    } else if c == '\\' {
        seq!['\\', '\\']
    } else if c == '\u{8}' {
        seq!['\\', 'b']
    } else if c == '\u{9}' {
        seq!['\\', 't']
    } else if c == '\u{a}' {
        seq!['\\', 'n']
    } else if c == '\u{c}' {
        seq!['\\', 'f']
    } else if c == '\u{d}' {
        seq!['\\', 'r']
    } else if (c as int) < 32 {
        seq!['\\', 'u', '0', '0', hex_char(((c as int) / 16) as nat), hex_char(((c as int) % 16) as nat)]
    } else {
        seq![c]
    }
}

/// The body of a JSON string literal for the given character sequence.
pub open spec fn json_escape(s: Seq<char>) -> Seq<char>
    decreases s.len(),
{
    if s.len() == 0 {
        Seq::<char>::empty()
    } else {
        json_escape(s.drop_last()) + escape_char(s.last())
    }
}

/// The canonical JSON rendering of a block's fields that is fed to SHA-256:
/// the fields in declaration order, with `hash` held at the empty string.
pub open spec fn preimage_of(
    index: u64,
    timestamp: u64,
    proof_of_work: u64,
    previous_hash: Seq<char>,
    data: Seq<char>,
) -> Seq<char> {
    "{\"index\":"@ + dec_str(index as nat) + ",\"timestamp\":"@ + dec_str(timestamp as nat)
        + ",\"proof_of_work\":"@ + dec_str(proof_of_work as nat) + ",\"previous_hash\":\""@
        + json_escape(previous_hash) + "\",\"hash\":\"\",\"data\":\""@ + json_escape(data)
        + "\"}"@
}

/// The SHA-256 digest of the UTF-8 encoding of a character sequence.
/// It is given only by the `sha256` wrapper below; nothing else is
/// assumed of it.
pub uninterp spec fn sha256_of(s: Seq<char>) -> Seq<u8>;

/// Relies on sha2::Sha256: the digest is a function of the input bytes
/// alone, and is 32 bytes long.
#[verifier::external_body]
fn sha256(s: &str) -> (r: Vec<u8>)
    ensures
        r@ == sha256_of(s@),
        r@.len() == 32,
{
    let mut hasher = Sha256::new();
    hasher.update(s.as_bytes());
    hasher.finalize().to_vec()
}

/// The full digest pipeline: canonical rendering, SHA-256, lowercase hex.
pub open spec fn digest_of(
    index: u64,
    timestamp: u64,
    proof_of_work: u64,
    previous_hash: Seq<char>,
    data: Seq<char>,
) -> Seq<char> {
    hex_of(sha256_of(preimage_of(index, timestamp, proof_of_work, previous_hash, data)))
}

/// Relies on String::push: appends exactly the given character.
#[verifier::external_body]
fn push_char(s: &mut String, c: char)
    ensures
        final(s)@ == old(s)@.push(c),
{
    s.push(c);
}

/// The lowercase hex character for a digit value below 16, as executable code.
fn hex_char_of(d: u8) -> (c: char)
    requires
        d < 16,
    ensures
        c == hex_char(d as nat),
{
    if d == 0 {
        '0'
    } else if d == 1 {
        '1'
    } else if d == 2 {
        '2'
    } else if d == 3 {
        '3'
    } else if d == 4 {
        '4'
    } else if d == 5 {
        '5'
    } else if d == 6 {
        '6'
    } else if d == 7 {
        '7'
    } else if d == 8 {
        '8'
    } else if d == 9 {
        '9'
    } else if d == 10 {
        'a'
    } else if d == 11 {
        'b'
    } else if d == 12 {
        'c'
    } else if d == 13 {
        'd'
    } else if d == 14 {
        'e'
    } else {
        'f'
    }
}

/// Appends every character of `v` to `s`, in order.
fn push_chars(s: &mut String, v: &Vec<char>)
    ensures
        final(s)@ == old(s)@ + v@,
{
    let ghost s0 = s@;
    let mut i: usize = 0;
    while i < v.len()
        invariant
            i <= v@.len(),
            s@ == s0 + v@.take(i as int),
        decreases v@.len() - i,
    {
        push_char(s, v[i]);
        proof {
            assert(v@.take(i as int + 1) =~= v@.take(i as int).push(v@[i as int]));
        }
        i = i + 1;
    }
    proof {
        assert(v@.take(v@.len() as int) =~= v@);
    }
}

/// Appends the decimal rendering of `n` to `s`.
fn append_u64(s: &mut String, n: u64)
    ensures
        final(s)@ == old(s)@ + dec_str(n as nat),
{
    let mut digits: Vec<char> = Vec::new();
    let mut m: u64 = n;
    loop
        invariant_except_break
            (digits@.len() == 0 && m == n) || (m > 0 && dec_str(n as nat) == dec_str(m as nat)
                + digits@),
        ensures
            dec_str(n as nat) == digits@,
        decreases m,
    {
        let ghost digits0 = digits@;
        let ghost m0 = m;
        let d: u8 = (m % 10) as u8;
        let c = hex_char_of(d);
        digits.insert(0, c);
        proof {
            assert(digits@ =~= seq![hex_char((m0 % 10) as nat)] + digits0);
        }
        m = m / 10;
        proof {
            if m0 >= 10 {
                assert(dec_str(m0 as nat) == dec_str(m0 as nat / 10) + seq![
                    hex_char(m0 as nat % 10),
                ]);
            }
            if digits0.len() == 0 {
                assert(digits@ =~= seq![hex_char((m0 % 10) as nat)]);
            }
            assert((dec_str(m0 as nat / 10) + seq![hex_char(m0 as nat % 10)]) + digits0 =~= dec_str(
                m0 as nat / 10,
            ) + (seq![hex_char(m0 as nat % 10)] + digits0));
        }
        if m == 0 {
            proof {
                assert(m0 < 10);
                assert(dec_str(m0 as nat) == seq![hex_char(m0 as nat)]);
                assert(dec_str(n as nat) == digits@);
            }
            break;
        }
    }
    push_chars(s, &digits);
}

/// Appends the JSON string-literal body for `t` to `s`.
fn append_json_escaped(s: &mut String, t: &str)
    ensures
        final(s)@ == old(s)@ + json_escape(t@),
{
    let ghost s0 = s@;
    let len = t.unicode_len();
    let mut i: usize = 0;
    while i < len
        invariant
            i <= len,
            len == t@.len(),
            s@ == s0 + json_escape(t@.take(i as int)),
        decreases len - i,
    {
        let c = t.get_char(i);
        if c == '"' {
            s.append("\\\"");
            proof {
                reveal_strlit("\\\"");
                assert("\\\""@ =~= escape_char(c));
            }
        } else if c == '\\' {
            s.append("\\\\");
            proof {
                reveal_strlit("\\\\");
                assert("\\\\"@ =~= escape_char(c));
            }
        } else if c == '\u{8}' {
            s.append("\\b");
            proof {
                reveal_strlit("\\b");
                assert("\\b"@ =~= escape_char(c));
            }
        } else if c == '\u{9}' {
            s.append("\\t");
            proof {
                reveal_strlit("\\t");
                assert("\\t"@ =~= escape_char(c));
            }
        } else if c == '\u{a}' {
            s.append("\\n");
            proof {
                reveal_strlit("\\n");
                assert("\\n"@ =~= escape_char(c));
            }
        } else if c == '\u{c}' {
            s.append("\\f");
            proof {
                reveal_strlit("\\f");
                assert("\\f"@ =~= escape_char(c));
            }
        } else if c == '\u{d}' {
            s.append("\\r");
            proof {
                reveal_strlit("\\r");
                assert("\\r"@ =~= escape_char(c));
            }
        } else if (c as u32) < 32 {
            let ghost s1 = s@;
            let v: u32 = c as u32;
            push_char(s, '\\');
            push_char(s, 'u');
            push_char(s, '0');
            push_char(s, '0');
            push_char(s, hex_char_of((v / 16) as u8));
            push_char(s, hex_char_of((v % 16) as u8));
            proof {
                assert(s@ =~= s1 + escape_char(c));
            }
        } else {
            push_char(s, c);
            proof {
                assert(escape_char(c) =~= seq![c]);
            }
        }
        proof {
            assert(t@.take(i as int + 1).drop_last() =~= t@.take(i as int));
            assert(t@.take(i as int + 1).last() == t@[i as int]);
            assert(json_escape(t@.take(i as int + 1)) == json_escape(t@.take(i as int))
                + escape_char(t@[i as int]));
            assert(s0 + (json_escape(t@.take(i as int)) + escape_char(t@[i as int])) =~= (s0
                + json_escape(t@.take(i as int))) + escape_char(t@[i as int]));
        }
        i = i + 1;
    }
    proof {
        assert(t@.take(len as int) =~= t@);
    }
}

/// The lowercase hex rendering of a byte string, as executable code.
fn hex_string(bytes: &Vec<u8>) -> (s: String)
    ensures
        s@ == hex_of(bytes@),
{
    let mut s = String::new();
    let mut i: usize = 0;
    while i < bytes.len()
        invariant
            i <= bytes@.len(),
            s@ == hex_of(bytes@.take(i as int)),
        decreases bytes@.len() - i,
    {
        let ghost s1 = s@;
        let b = bytes[i];
        push_char(&mut s, hex_char_of(b / 16));
        push_char(&mut s, hex_char_of(b % 16));
        proof {
            assert(s@ =~= s1 + byte_hex(bytes@[i as int]));
            assert(bytes@.take(i as int + 1).drop_last() =~= bytes@.take(i as int));
            assert(bytes@.take(i as int + 1).last() == bytes@[i as int]);
            assert(hex_of(bytes@.take(i as int + 1)) == hex_of(bytes@.take(i as int)) + byte_hex(
                bytes@[i as int],
            ));
        }
        i = i + 1;
    }
    proof {
        assert(bytes@.take(bytes@.len() as int) =~= bytes@);
    }
    s
}

/// Builds the canonical JSON rendering of the given block fields.
pub(crate) fn canonical_preimage(
    index: u64,
    timestamp: u64,
    proof_of_work: u64,
    previous_hash: &str,
    data: &str,
) -> (s: String)
    ensures
        s@ == preimage_of(index, timestamp, proof_of_work, previous_hash@, data@),
{
    let mut s = String::new();
    s.append("{\"index\":");
    append_u64(&mut s, index);
    s.append(",\"timestamp\":");
    append_u64(&mut s, timestamp);
    s.append(",\"proof_of_work\":");
    append_u64(&mut s, proof_of_work);
    s.append(",\"previous_hash\":\"");
    append_json_escaped(&mut s, previous_hash);
    s.append("\",\"hash\":\"\",\"data\":\"");
    append_json_escaped(&mut s, data);
    s.append("\"}");
    proof {
        assert(s@ =~= preimage_of(index, timestamp, proof_of_work, previous_hash@, data@));
    }
    s
}

/// The digest of the given block fields, as executable code: canonical
/// rendering, SHA-256, lowercase hex.
pub(crate) fn compute_digest(
    index: u64,
    timestamp: u64,
    proof_of_work: u64,
    previous_hash: &str,
    data: &str,
) -> (r: String)
    ensures
        r@ == digest_of(index, timestamp, proof_of_work, previous_hash@, data@),
        r@.len() == 64,
{
    let pre = canonical_preimage(index, timestamp, proof_of_work, previous_hash, data);
    let digest = sha256(pre.as_str());
    proof {
        lemma_hex_of_len(digest@);
    }
    hex_string(&digest)
}

/// The hex rendering of a byte string has two characters per byte.
pub proof fn lemma_hex_of_len(bytes: Seq<u8>)
    ensures
        hex_of(bytes).len() == 2 * bytes.len(),
    decreases bytes.len(),
{
    if bytes.len() > 0 {
        lemma_hex_of_len(bytes.drop_last());
    }
}

} // verus!
