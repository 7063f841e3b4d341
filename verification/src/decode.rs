//! The decoding ladder for wrapped-process output: strict UTF-8 first, then
//! UTF-16LE for even-length buffers, then Windows-1252, then IBM CP437; the
//! first rung that accepts the buffer wins.

use vstd::prelude::*;

use vstd::utf8::{decode_utf8, encode_utf8, valid_utf8};

verus! {

/// A UTF-16 high-surrogate code unit.
pub open spec fn utf16_is_high(u: u16) -> bool {
    0xD800 <= u <= 0xDBFF
}

/// A UTF-16 low-surrogate code unit.
pub open spec fn utf16_is_low(u: u16) -> bool {
    0xDC00 <= u <= 0xDFFF
}

/// Well-formed UTF-16: every high surrogate is followed by a low one, and no
/// low surrogate stands alone.
pub open spec fn utf16_valid(units: Seq<u16>) -> bool
    decreases units.len(),
{
    if units.len() == 0 {
        true
    } else if utf16_is_high(units[0]) {
        units.len() >= 2 && utf16_is_low(units[1]) && utf16_valid(units.skip(2))
    } else if utf16_is_low(units[0]) {
        false
    } else {
        utf16_valid(units.skip(1))
    }
}

/// The scalar a surrogate pair encodes.
pub open spec fn utf16_combine(hi: u16, lo: u16) -> u32 {
    (0x10000 + (hi - 0xD800) * 0x400 + (lo - 0xDC00)) as u32
}

/// The characters a well-formed UTF-16 sequence encodes.
pub open spec fn utf16_decode(units: Seq<u16>) -> Seq<char>
    recommends
        utf16_valid(units),
    decreases units.len(),
    when utf16_valid(units)
{
    if units.len() == 0 {
        seq![]
    } else if utf16_is_high(units[0]) {
        seq![utf16_combine(units[0], units[1]) as char] + utf16_decode(units.skip(2))
    } else {
        seq![(units[0] as u32) as char] + utf16_decode(units.skip(1))
    }
}

/// The 16-bit little-endian code units of an even-length byte string.
pub open spec fn spec_le_units(bytes: Seq<u8>) -> Seq<u16>
    recommends
        bytes.len() % 2 == 0,
{
    Seq::new((bytes.len() / 2) as nat, |i: int| (bytes[2 * i] + bytes[2 * i + 1] * 256) as u16)
}

fn bytes_to_units(buf: &[u8]) -> (r: Vec<u16>)
    requires
        buf@.len() % 2 == 0,
    ensures
        r@ == spec_le_units(buf@),
{
    let n = buf.len();
    let mut r: Vec<u16> = Vec::new();
    let mut i: usize = 0;
    while i + 1 < n
        invariant
            n == buf@.len(),
            n % 2 == 0,
            i % 2 == 0,
            0 <= i <= n,
            r@.len() == i / 2,
            forall|j: int| 0 <= j < i / 2 ==> r@[j] == spec_le_units(buf@)[j],
        decreases n - i,
    {
        let lo = buf[i];
        let hi = buf[i + 1];
        let unit: u16 = (lo as u16) + (hi as u16) * 256;
        r.push(unit);
        i += 2;
    }
    proof {
        assert(r@ =~= spec_le_units(buf@));
    }
    r
}

/// Relies on `str::from_utf8`: it succeeds exactly on the byte strings that
/// vstd's `valid_utf8` admits, and yields their `decode_utf8` characters.
#[verifier::external_body]
fn utf8_to_string(buf: &[u8]) -> (r: Option<String>)
    ensures
        (r is Some) == valid_utf8(buf@),
        r matches Some(s) ==> s@ == decode_utf8(buf@),
{
    match std::str::from_utf8(buf) {
        Ok(s) => Some(s.to_string()),
        Err(_) => None,
    }
}

/// Relies on `String::from_utf16`: it succeeds exactly on well-formed UTF-16
/// (no unpaired surrogates) and decodes each code unit or surrogate pair to
/// its scalar.
#[verifier::external_body]
fn utf16_to_string(units: &Vec<u16>) -> (r: Option<String>)
    ensures
        (r is Some) == utf16_valid(units@),
        r matches Some(s) ==> s@ == utf16_decode(units@),
{
    String::from_utf16(units).ok()
}

/// What encoding_rs's Windows-1252 decode yields for a byte string: `Some`
/// of the decoded text when it reports no errors, `None` otherwise.
pub uninterp spec fn windows1252_of(bytes: Seq<u8>) -> Option<Seq<char>>;

/// Relies on encoding_rs's `WINDOWS_1252.decode`: a pure function of the
/// bytes (BOM sniffing included), whose third result reports malformed
/// sequences. The length bound keeps clear of its documented panic on output
/// size overflow.
#[verifier::external_body]
fn windows1252_decode(buf: &[u8]) -> (r: Option<String>)
    requires
        buf@.len() <= 0x1000_0000,
    ensures
        (r is Some) == (windows1252_of(buf@) is Some),
        r matches Some(s) ==> windows1252_of(buf@) == Some(s@),
{
    let (text, _, had_errors) = encoding_rs::WINDOWS_1252.decode(buf);
    if had_errors {
        None
    } else {
        Some(text.into_owned())
    }
}

/// What decoding a byte string as IBM CP437 through encoding_rs yields:
/// `Some` of the decoded text when the label resolves and the decoder
/// reports no errors, `None` otherwise.
pub uninterp spec fn cp437_of(bytes: Seq<u8>) -> Option<Seq<char>>;

/// Relies on encoding_rs's `Encoding::for_label` and `decode`: the label
/// table is fixed, and the decode is a pure function of the bytes, so the
/// composite depends on the bytes alone.
#[verifier::external_body]
fn cp437_decode(buf: &[u8]) -> (r: Option<String>)
    requires
        buf@.len() <= 0x1000_0000,
    ensures
        (r is Some) == (cp437_of(buf@) is Some),
        r matches Some(s) ==> cp437_of(buf@) == Some(s@),
{
    match encoding_rs::Encoding::for_label(b"ibm437") {
        Some(enc) => {
            let (text, _, had_errors) = enc.decode(buf);
            if had_errors {
                None
            } else {
                Some(text.into_owned())
            }
        },
        None => None,
    }
}

/// The whole ladder: the first accepting rung decides.
pub open spec fn spec_try_decode(bytes: Seq<u8>) -> Option<Seq<char>> {
    if valid_utf8(bytes) {
        Some(decode_utf8(bytes))
    } else if bytes.len() % 2 == 0 && utf16_valid(spec_le_units(bytes)) {
        Some(utf16_decode(spec_le_units(bytes)))
    } else if windows1252_of(bytes) is Some {
        windows1252_of(bytes)
    } else if cp437_of(bytes) is Some {
        cp437_of(bytes)
    } else {
        None
    }
}

/// Decodes one output buffer by the ladder.
pub fn try_decode(buf: &[u8]) -> (r: Option<String>)
    requires
        buf@.len() <= 0x1000_0000,
    ensures
        (r is Some) == (spec_try_decode(buf@) is Some),
        r matches Some(s) ==> spec_try_decode(buf@) == Some(s@),
{
    match utf8_to_string(buf) {
        Some(s) => {
            return Some(s);
        },
        None => {},
    }
    if buf.len() % 2 == 0 {
        let units = bytes_to_units(buf);
        match utf16_to_string(&units) {
            Some(s) => {
                return Some(s);
            },
            None => {},
        }
    }
    match windows1252_decode(buf) {
        Some(s) => {
            return Some(s);
        },
        None => {},
    }
    match cp437_decode(buf) {
        Some(s) => {
            return Some(s);
        },
        None => {},
    }
    None
}

/// The decoder is the identity on UTF-8 input: the first rung accepts every
/// valid UTF-8 byte string, so the UTF-8 encoding of any text decodes back
/// to exactly that text.
pub proof fn lemma_decode_utf8_round_trip(s: Seq<char>)
    ensures
        spec_try_decode(encode_utf8(s)) == Some(s),
{
    broadcast use vstd::utf8::encode_utf8_valid_utf8;
    broadcast use vstd::utf8::encode_utf8_decode_utf8;

}

} // verus!
