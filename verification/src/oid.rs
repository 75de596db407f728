//! Order identifiers: sixteen octets in storage, up to thirty-two
//! hexadecimal characters towards clients.

use crate::error::AppErrorCode;
use crate::text::{chars_of, dec_string, dec_text, string_of};
use vstd::prelude::*;
use vstd::string::StringExecFns;

verus! {

/// Width of the stored identifier, in octets.
pub const OID_BYTE_LENGTH: usize = 16;

/// An order identifier in its stored form.  A shorter identifier sits at the
/// end of the array, behind zero octets.
pub struct OidBytes(pub [u8; 16]);

/// Whether `c` is a hexadecimal digit of either case.
pub open spec fn is_hex_char(c: char) -> bool {
    ('0' <= c <= '9') || ('a' <= c <= 'f') || ('A' <= c <= 'F')
}

/// Whether `c` is a decimal digit or one of `a` to `f`.
pub open spec fn is_lower_hex_char(c: char) -> bool {
    ('0' <= c <= '9') || ('a' <= c <= 'f')
}

/// The value of a hexadecimal digit.
pub open spec fn hex_nibble(c: char) -> nat
    recommends
        is_hex_char(c),
{
    if '0' <= c <= '9' {
        (c as u8 - '0' as u8) as nat
    } else if 'a' <= c <= 'f' {
        (c as u8 - 'a' as u8 + 10) as nat
    } else {
        (c as u8 - 'A' as u8 + 10) as nat
    }
}

/// The lower-case hexadecimal digit of value `n`.
pub open spec fn hex_digit_char(n: nat) -> char
    recommends
        n < 16,
{
    if n < 10 {
        ('0' as u8 + n as u8) as char
    } else {
        ('a' as u8 + (n - 10) as u8) as char
    }
}

/// Whether the pair of characters that starts at `idx` is two hex digits.
pub open spec fn pair_is_hex(s: Seq<char>, idx: int) -> bool
    recommends
        0 <= idx,
        idx + 1 < s.len(),
{
    is_hex_char(s[idx]) && is_hex_char(s[idx + 1])
}

/// Whether `s` is an even number of hexadecimal digits.
pub open spec fn is_hex_text(s: Seq<char>) -> bool {
    s.len() % 2 == 0 && forall|i: int| 0 <= i < s.len() ==> is_hex_char(#[trigger] s[i])
}

/// Whether `s` is an even number of lower-case hexadecimal digits.
pub open spec fn is_lower_hex_text(s: Seq<char>) -> bool {
    s.len() % 2 == 0 && forall|i: int| 0 <= i < s.len() ==> is_lower_hex_char(#[trigger] s[i])
}

/// The octet written by the pair of hex digits that starts at `idx`.
pub open spec fn pair_octet(s: Seq<char>, idx: int) -> u8
    recommends
        0 <= idx,
        idx + 1 < s.len(),
{
    (hex_nibble(s[idx]) * 16 + hex_nibble(s[idx + 1])) as u8
}

/// The octets that a hexadecimal text writes, pair by pair.
pub open spec fn hex_octets(s: Seq<char>) -> Seq<u8> {
    Seq::new(s.len() / 2, |i: int| pair_octet(s, 2 * i))
}

/// Index of the last pair of `s` that is not two hex digits, among the pairs
/// that start before `upto`; `-1` if there is none.
pub open spec fn last_bad_pair(s: Seq<char>, upto: int) -> int
    decreases upto,
{
    if upto < 2 {
        -1
    } else if !pair_is_hex(s, upto - 2) {
        upto - 2
    } else {
        last_bad_pair(s, upto - 2)
    }
}

/// The stored form of a hexadecimal text of at most thirty-two digits: its
/// octets at the end, zero octets before them.
pub open spec fn oid_encode(s: Seq<char>) -> Seq<u8> {
    Seq::new(
        16,
        |i: int|
            if i < 16 - s.len() / 2 {
                0u8
            } else {
                hex_octets(s)[i - (16 - s.len() / 2)]
            },
    )
}

/// The octets of `b` from the first one that is not zero.
pub open spec fn skip_leading_zeros(b: Seq<u8>) -> Seq<u8>
    decreases b.len(),
{
    if b.len() == 0 || b[0] != 0 {
        b
    } else {
        skip_leading_zeros(b.drop_first())
    }
}

/// Two lower-case hexadecimal digits for each octet of `b`.
pub open spec fn lower_hex(b: Seq<u8>) -> Seq<char> {
    Seq::new(
        2 * b.len(),
        |i: int|
            if i % 2 == 0 {
                hex_digit_char((b[i / 2] / 16) as nat)
            } else {
                hex_digit_char((b[i / 2] % 16) as nat)
            },
    )
}

/// The client form of a stored identifier.
pub open spec fn oid_decode(raw: Seq<u8>) -> Seq<char> {
    lower_hex(skip_leading_zeros(raw))
}

/// What `hex_to_octet` reports for a text with a pair that is not hex.
pub open spec fn bad_pair_detail(s: Seq<char>) -> Seq<char> {
    let idx = last_bad_pair(s, s.len() as int);
    "parse-char-at-idx: "@ + s.subrange(idx, idx + 2) + " , "@ + dec_text(idx as nat)
}

fn nibble_of(c: char) -> (r: Option<u8>)
    ensures
        r is Some <==> is_hex_char(c),
        r matches Some(v) ==> v == hex_nibble(c) && v < 16,
{
    if '0' <= c && c <= '9' {
        Some(c as u8 - 48u8)
    } else if 'a' <= c && c <= 'f' {
        Some(c as u8 - 97u8 + 10u8)
    } else if 'A' <= c && c <= 'F' {
        Some(c as u8 - 65u8 + 10u8)
    } else {
        None
    }
}

fn hex_char_of(n: u8) -> (c: char)
    requires
        n < 16,
    ensures
        c == hex_digit_char(n as nat),
        is_lower_hex_char(c),
{
    if n < 10 {
        (48u8 + n) as char
    } else {
        (97u8 + (n - 10)) as char
    }
}

fn labelled(label: &str, rest: &str) -> (r: String)
    ensures
        r@ == label@ + rest@,
{
    String::from_str(label).concat(rest)
}

/// Parses a text of hexadecimal pairs into octets.
///
/// A text of odd length, or with a character that is not a hexadecimal
/// digit, is refused as invalid input; the detail names the last pair that
/// did not parse.
pub fn hex_to_octet(src: &str) -> (r: Result<Vec<u8>, (AppErrorCode, String)>)
    ensures
        is_hex_text(src@) <==> r is Ok,
        r matches Ok(v) ==> v@ == hex_octets(src@),
        r matches Err(e) ==> e.0 == AppErrorCode::InvalidInput,
        r matches Err(e) ==> e.1@ == (if src@.len() % 2 != 0 {
            "hex-string-incorrect-size: "@ + src@
        } else {
            bad_pair_detail(src@)
        }),
{
    let cs = chars_of(src);
    let n = cs.len();
    if n % 2 != 0 {
        return Err((AppErrorCode::InvalidInput, labelled("hex-string-incorrect-size: ", src)));
    }
    let mut out: Vec<u8> = Vec::new();
    let mut bad: Option<usize> = None;
    let mut i: usize = 0;
    while i < n
        invariant
            n == cs.len(),
            cs@ == src@,
            n % 2 == 0,
            i % 2 == 0,
            i <= n,
            bad is None <==> last_bad_pair(cs@, i as int) == -1,
            bad matches Some(b) ==> b == last_bad_pair(cs@, i as int) && b + 1 < i,
            bad is None ==> out@ == Seq::new((i / 2) as nat, |k: int| pair_octet(cs@, 2 * k)),
            bad is None ==> forall|k: int| 0 <= k < i ==> is_hex_char(#[trigger] cs@[k]),
        decreases n - i,
    {
        let hi = nibble_of(cs[i]);
        let lo = nibble_of(cs[i + 1]);
        match (hi, lo) {
            (Some(h), Some(l)) => {
                if bad.is_none() {
                    out.push(h * 16 + l);
                }
            },
            _ => {
                bad = Some(i);
            },
        }
        i += 2;
    }
    match bad {
        None => {
            Ok(out)
        },
        Some(b) => {
            proof {
                lemma_bad_pair_not_hex(cs@, n as int);
            }
            let pair = string_of(&cs, b, b + 2);
            let idx = dec_string(b as u64);
            let detail = labelled("parse-char-at-idx: ", pair.as_str()).concat(" , ").concat(
                idx.as_str(),
            );
            Err((AppErrorCode::InvalidInput, detail))
        },
    }
}

/// A text with a pair that is not hex is not a hexadecimal text.
pub proof fn lemma_bad_pair_not_hex(s: Seq<char>, upto: int)
    requires
        0 <= upto <= s.len(),
        upto % 2 == 0,
        last_bad_pair(s, upto) != -1,
    ensures
        !is_hex_text(s),
        0 <= last_bad_pair(s, upto) < upto - 1,
        !pair_is_hex(s, last_bad_pair(s, upto)),
    decreases upto,
{
    if upto >= 2 && pair_is_hex(s, upto - 2) {
        lemma_bad_pair_not_hex(s, upto - 2);
    }
}

impl OidBytes {
    /// The stored octets as a sequence of length sixteen.
    pub open spec fn octets(self) -> Seq<u8> {
        self.0@
    }

    /// Encodes a client identifier for storage.
    ///
    /// Refuses, as invalid input, a text of more than thirty-two
    /// characters, of odd length, or with a character that is not a
    /// hexadecimal digit.
    pub fn try_from(value: &str) -> (r: Result<OidBytes, (AppErrorCode, String)>)
        ensures
            (value@.len() <= 32 && is_hex_text(value@)) <==> r is Ok,
            r matches Ok(oid) ==> oid.octets() == oid_encode(value@),
            r matches Err(e) ==> e.0 == AppErrorCode::InvalidInput,
            r matches Err(e) ==> e.1@ == (if value@.len() > 32 {
                "size-not-fit: "@ + value@
            } else if value@.len() % 2 != 0 {
                "hex-string-incorrect-size: "@ + value@
            } else {
                bad_pair_detail(value@)
            }),
    {
        if value.unicode_len() > 32 {
            return Err((AppErrorCode::InvalidInput, labelled("size-not-fit: ", value)));
        }
        let src = match hex_to_octet(value) {
            Ok(v) => v,
            Err(e) => {
                return Err(e);
            },
        };
        let mut dst: [u8; 16] = [0u8;16];
        let pad: usize = 16 - src.len();
        let mut i: usize = 0;
        while i < src.len()
            invariant
                i <= src.len() <= 16,
                pad == 16 - src.len(),
                src@ == hex_octets(value@),
                forall|k: int| 0 <= k < pad ==> dst@[k] == 0u8,
                forall|k: int| pad <= k < pad + i ==> dst@[k] == src@[k - pad],
            decreases src.len() - i,
        {
            dst[pad + i] = src[i];
            i += 1;
        }
        Ok(OidBytes(dst))
    }

    /// The octets to write to the identifier column.
    pub fn as_column(&self) -> (r: Vec<u8>)
        ensures
            r@ == self.octets(),
    {
        let mut out: Vec<u8> = Vec::new();
        let mut i: usize = 0;
        while i < 16
            invariant
                i <= 16,
                out@ == self.0@.subrange(0, i as int),
            decreases 16 - i,
        {
            out.push(self.0[i]);
            i += 1;
        }
        out
    }

    /// Decodes octets read from the identifier column.
    ///
    /// Anything but sixteen octets is refused as corrupt data.  Leading zero
    /// octets are dropped and the rest is written in lower-case hexadecimal.
    pub fn to_app_oid(raw: Vec<u8>) -> (r: Result<String, (AppErrorCode, String)>)
        ensures
            raw@.len() == 16 <==> r is Ok,
            r matches Ok(s) ==> s@ == oid_decode(raw@) && s@.len() <= 32 && is_lower_hex_text(s@),
            r matches Err(e) ==> e.0 == AppErrorCode::DataCorruption && e.1@ == "fetched-id-len: "@
                + dec_text(raw@.len()),
    {
        if raw.len() != 16 {
            let n = dec_string(raw.len() as u64);
            return Err((AppErrorCode::DataCorruption, labelled("fetched-id-len: ", n.as_str())));
        }
        let mut start: usize = 0;
        assert(raw@.subrange(0, 16) =~= raw@);
        while start < 16 && raw[start] == 0
            invariant
                start <= 16,
                raw@.len() == 16,
                skip_leading_zeros(raw@) == skip_leading_zeros(raw@.subrange(start as int, 16)),
            decreases 16 - start,
        {
            assert(raw@.subrange(start as int, 16).drop_first() =~= raw@.subrange(
                start as int + 1,
                16,
            ));
            start += 1;
        }
        let ghost rest = raw@.subrange(start as int, 16);
        let mut out = String::new();
        let mut i: usize = start;
        while i < 16
            invariant
                start <= i <= 16,
                raw@.len() == 16,
                rest == raw@.subrange(start as int, 16),
                out@ == lower_hex(rest.subrange(0, i - start)),
            decreases 16 - i,
        {
            let b = raw[i];
            out.push(hex_char_of(b / 16));
            out.push(hex_char_of(b % 16));
            i += 1;
        }
        Ok(out)
    }
}

/// What `lower_hex` writes is an even number of lower-case hex digits.
pub proof fn lemma_lower_hex_is_text(b: Seq<u8>)
    ensures
        is_lower_hex_text(lower_hex(b)),
        lower_hex(b).len() == 2 * b.len(),
{
}

/// Zero octets in front of a sequence that starts with another octet, or
/// is empty, are all that `skip_leading_zeros` drops.
pub proof fn lemma_skip_padding(b: Seq<u8>, pad: int)
    requires
        0 <= pad <= b.len(),
        forall|k: int| 0 <= k < pad ==> b[k] == 0u8,
        pad == b.len() || b[pad] != 0u8,
    ensures
        skip_leading_zeros(b) == b.subrange(pad, b.len() as int),
    decreases pad,
{
    if pad == 0 {
    } else {
        let t = b.drop_first();
        lemma_skip_padding(t, pad - 1);
    }
}

/// Writing the octets of a lower-case hexadecimal text in lower-case
/// hexadecimal gives the text back.
pub proof fn lemma_lower_hex_of_octets(x: Seq<char>)
    requires
        is_lower_hex_text(x),
    ensures
        lower_hex(hex_octets(x)) == x,
{
}

/// Decoding what was encoded gives the client identifier back: this holds
/// of every text of at most thirty-two lower-case hexadecimal digits, in
/// pairs, whose first pair is not `00`.
pub proof fn lemma_oid_round_trip(x: Seq<char>)
    requires
        x.len() <= 32,
        is_lower_hex_text(x),
        x.len() == 0 || pair_octet(x, 0) != 0,
    ensures
        oid_decode(oid_encode(x)) == x,
{
    let enc = oid_encode(x);
    let pad = 16 - x.len() / 2;
    lemma_skip_padding(enc, pad as int);
}

/// Encoding what was decoded gives the sixteen stored octets back.
pub proof fn lemma_oid_stored_round_trip(raw: Seq<u8>)
    requires
        raw.len() == 16,
    ensures
        oid_decode(raw).len() <= 32,
        is_hex_text(oid_decode(raw)),
        oid_encode(oid_decode(raw)) == raw,
{
    lemma_skip_is_suffix(raw);
}

/// `skip_leading_zeros` keeps a suffix, and everything before it is zero.
pub proof fn lemma_skip_is_suffix(b: Seq<u8>)
    ensures
        skip_leading_zeros(b).len() <= b.len(),
        skip_leading_zeros(b) == b.subrange(
            b.len() - skip_leading_zeros(b).len(),
            b.len() as int,
        ),
        forall|k: int| 0 <= k < b.len() - skip_leading_zeros(b).len() ==> b[k] == 0u8,
    decreases b.len(),
{
    if b.len() == 0 || b[0] != 0 {
    } else {
        let t = b.drop_first();
        lemma_skip_is_suffix(t);
        let r = skip_leading_zeros(t);
        assert forall|k: int| 0 <= k < b.len() - r.len() implies b[k] == 0u8 by {
            if k > 0 {
                assert(b[k] == t[k - 1]);
            }
        }
    }
}

/// The lower-case form of a hexadecimal digit.
pub open spec fn lower_case(c: char) -> char {
    if 'A' <= c <= 'F' {
        ((c as u8) + 32u8) as char
    } else {
        c
    }
}

/// Decoding what was encoded gives the client identifier back in lower
/// case: this holds of every text of at most thirty-two hexadecimal digits,
/// in pairs, whose first pair is not `00`.
pub proof fn lemma_oid_round_trip_any_case(x: Seq<char>)
    requires
        x.len() <= 32,
        is_hex_text(x),
        x.len() == 0 || pair_octet(x, 0) != 0,
    ensures
        oid_decode(oid_encode(x)) == Seq::new(x.len(), |i: int| lower_case(x[i])),
{
    let low = Seq::new(x.len(), |i: int| lower_case(x[i]));
    assert(hex_octets(low) =~= hex_octets(x)) by {
    }
    lemma_oid_round_trip(low);
}

} // verus!
