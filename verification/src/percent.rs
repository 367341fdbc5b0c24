//! Percent-encoding of filesystem paths for `localimage://` URLs, and the
//! decoding that turns a requested URL path back into a filesystem path.

use vstd::prelude::*;
use vstd::utf8::*;
use vstd::string::*;
use crate::text::push_char;

verus! {

/// Bytes kept as they are by the encoder: ASCII letters, digits and `-_./~`.
pub open spec fn is_unreserved(b: u8) -> bool {
    ||| 65 <= b <= 90
    ||| 97 <= b <= 122
    ||| 48 <= b <= 57
    ||| b == 45
    ||| b == 95
    ||| b == 46
    ||| b == 47
    ||| b == 126
}

/// Upper-case hexadecimal digit for a value below sixteen.
pub open spec fn hex_digit_upper(d: nat) -> char {
    if d < 10 {
        (48 + d) as char
    } else {
        (55 + d) as char
    }
}

/// How the encoder writes one byte: itself, or `%` and two upper-case hex digits.
pub open spec fn encode_byte(b: u8) -> Seq<char> {
    if is_unreserved(b) {
        seq![b as char]
    } else {
        seq!['%', hex_digit_upper((b / 16) as nat), hex_digit_upper((b % 16) as nat)]
    }
}

/// The percent-encoding of a byte sequence.
pub open spec fn percent_encoded(bytes: Seq<u8>) -> Seq<char>
    decreases bytes.len(),
{
    if bytes.len() == 0 {
        seq![]
    } else {
        encode_byte(bytes[0]) + percent_encoded(bytes.drop_first())
    }
}

/// The value of an ASCII hexadecimal digit (either case).
pub open spec fn hex_value(b: u8) -> Option<u8> {
    if 48 <= b <= 57 {
        Some((b - 48) as u8)
    } else if 65 <= b <= 70 {
        Some((b - 55) as u8)
    } else if 97 <= b <= 102 {
        Some((b - 87) as u8)
    } else {
        None
    }
}

/// The byte written as the two hex digits `[b1, b2]` (either case), if both are hex digits.
pub open spec fn hex_pair(b1: u8, b2: u8) -> Option<u8> {
    if hex_value(b1) is Some && hex_value(b2) is Some {
        Some((hex_value(b1)->0 * 16 + hex_value(b2)->0) as u8)
    } else {
        None
    }
}

/// The bytes that percent-decoding produces: `%` followed by two hex digits
/// becomes the byte they write; every other byte is copied.
pub open spec fn percent_decoded(s: Seq<u8>) -> Seq<u8>
    decreases s.len(),
{
    if s.len() == 0 {
        seq![]
    } else if s[0] == 37 && s.len() > 2 && hex_pair(s[1], s[2]) is Some {
        seq![hex_pair(s[1], s[2])->0] + percent_decoded(s.skip(3))
    } else {
        seq![s[0]] + percent_decoded(s.skip(1))
    }
}

/// True when decoding would look at a `%` whose two following bytes end in the
/// middle of a multi-byte character: the decoder takes those two bytes out of
/// the text as a string slice before reading them as hex digits, and std refuses
/// to slice there.
pub open spec fn decode_splits_char(s: Seq<u8>) -> bool
    decreases s.len(),
{
    if s.len() == 0 {
        false
    } else if s[0] == 37 && s.len() > 2 {
        if s.len() > 3 && is_continuation_byte(s[3]) {
            true
        } else if hex_pair(s[1], s[2]) is Some {
            decode_splits_char(s.skip(3))
        } else {
            decode_splits_char(s.skip(1))
        }
    } else {
        decode_splits_char(s.skip(1))
    }
}

/// The text that std's `String::from_utf8_lossy` makes of a byte sequence.
pub uninterp spec fn utf8_lossy(bytes: Seq<u8>) -> Seq<char>;

/// Calls std's `String::from_utf8_lossy`. Its result is named by `utf8_lossy`; as the
/// documentation says, valid UTF-8 comes back as the text it encodes.
#[verifier::external_body]
fn utf8_lossy_string(bytes: &[u8]) -> (res: String)
    ensures
        res@ == utf8_lossy(bytes@),
        valid_utf8(bytes@) ==> res@ == decode_utf8(bytes@),
{
    String::from_utf8_lossy(bytes).into_owned()
}

proof fn lemma_percent_encoded_concat(a: Seq<u8>, b: Seq<u8>)
    ensures
        percent_encoded(a + b) == percent_encoded(a) + percent_encoded(b),
    decreases a.len(),
{
    if a.len() == 0 {
        assert(a + b =~= b);
    } else {
        lemma_percent_encoded_concat(a.drop_first(), b);
        assert((a + b).drop_first() =~= a.drop_first() + b);
    }
}

fn hex_char_upper(d: u8) -> (c: char)
    requires
        d < 16,
    ensures
        c == hex_digit_upper(d as nat),
{
    if d < 10 {
        (48u8 + d) as char
    } else {
        (55u8 + d) as char
    }
}

/// Percent-encodes a filesystem path for use in a URL: every byte of its UTF-8
/// encoding that is not an ASCII letter, digit or one of `-_./~` becomes `%XX`.
pub fn percent_encode_path(path: &str) -> (res: String)
    ensures
        res@ == percent_encoded(path.spec_bytes()),
{
    let bytes = path.as_bytes();
    let mut encoded = String::new();
    let mut i: usize = 0;
    while i < bytes.len()
        invariant
            i <= bytes@.len(),
            bytes@ == path.spec_bytes(),
            encoded@ == percent_encoded(bytes@.take(i as int)),
        decreases bytes@.len() - i,
    {
        let byte = bytes[i];
        let ghost before = encoded@;
        if (65 <= byte && byte <= 90) || (97 <= byte && byte <= 122) || (48 <= byte && byte <= 57)
            || byte == 45 || byte == 95 || byte == 46 || byte == 47 || byte == 126 {
            push_char(&mut encoded, byte as char);
        } else {
            push_char(&mut encoded, '%');
            push_char(&mut encoded, hex_char_upper(byte / 16));
            push_char(&mut encoded, hex_char_upper(byte % 16));
        }
        proof {
            let b = bytes@;
            assert(b.take(i + 1) =~= b.take(i as int) + seq![byte]);
            lemma_percent_encoded_concat(b.take(i as int), seq![byte]);
            assert(seq![byte].drop_first() =~= Seq::<u8>::empty());
            assert(percent_encoded(Seq::<u8>::empty()) =~= Seq::<char>::empty());
            assert(encode_byte(byte) + Seq::<char>::empty() =~= encode_byte(byte));
            assert(percent_encoded(seq![byte]) =~= encode_byte(byte));
            assert(encoded@ =~= before + encode_byte(byte));
        }
        i = i + 1;
    }
    proof {
        assert(bytes@.take(bytes@.len() as int) =~= bytes@);
    }
    encoded
}

fn hex_value_exec(b: u8) -> (res: Option<u8>)
    ensures
        res == hex_value(b),
{
    if 48 <= b && b <= 57 {
        Some(b - 48)
    } else if 65 <= b && b <= 70 {
        Some(b - 55)
    } else if 97 <= b && b <= 102 {
        Some(b - 87)
    } else {
        None
    }
}

fn hex_pair_exec(b1: u8, b2: u8) -> (res: Option<u8>)
    ensures
        res == hex_pair(b1, b2),
{
    match (hex_value_exec(b1), hex_value_exec(b2)) {
        (Some(h), Some(l)) => Some(h * 16 + l),
        _ => None,
    }
}

/// Whether `percent_decode_path` would slice its input inside a character, which
/// std refuses with a panic; such inputs are outside `percent_decode_path`'s contract.
pub fn percent_decode_splits_char(input: &str) -> (res: bool)
    ensures
        res == decode_splits_char(input.spec_bytes()),
{
    let bytes = input.as_bytes();
    let mut i: usize = 0;
    assert(bytes@.skip(0) =~= bytes@);
    while i < bytes.len()
        invariant
            i <= bytes@.len(),
            bytes@ == input.spec_bytes(),
            decode_splits_char(bytes@) == decode_splits_char(bytes@.skip(i as int)),
        decreases bytes@.len() - i,
    {
        let ghost rest = bytes@.skip(i as int);
        if bytes[i] == 37 && bytes.len() - i > 2 {
            if bytes.len() - i > 3 && 0x80 <= bytes[i + 3] && bytes[i + 3] <= 0xbf {
                return true;
            }
            if hex_pair_exec(bytes[i + 1], bytes[i + 2]).is_some() {
                assert(rest.skip(3) =~= bytes@.skip(i + 3));
                i = i + 3;
                continue;
            }
        }
        assert(rest.skip(1) =~= bytes@.skip(i + 1));
        i = i + 1;
    }
    false
}

/// Percent-decodes a URL path back to a filesystem path: `%XX` becomes the byte
/// `XX`, and the resulting bytes are read as UTF-8 (invalid sequences replaced).
pub fn percent_decode_path(input: &str) -> (res: String)
    requires
        !decode_splits_char(input.spec_bytes()),
    ensures
        res@ == utf8_lossy(percent_decoded(input.spec_bytes())),
        valid_utf8(percent_decoded(input.spec_bytes())) ==> res@ == decode_utf8(
            percent_decoded(input.spec_bytes()),
        ),
{
    let bytes = input.as_bytes();
    let mut output: Vec<u8> = Vec::new();
    let mut i: usize = 0;
    assert(bytes@.skip(0) =~= bytes@);
    assert(output@ + bytes@ =~= bytes@);
    while i < bytes.len()
        invariant
            i <= bytes@.len(),
            bytes@ == input.spec_bytes(),
            percent_decoded(bytes@) == output@ + percent_decoded(bytes@.skip(i as int)),
            !decode_splits_char(bytes@.skip(i as int)),
        decreases bytes@.len() - i,
    {
        let ghost rest = bytes@.skip(i as int);
        let ghost before = output@;
        if bytes[i] == 37 && bytes.len() - i > 2 {
            if let Some(byte) = hex_pair_exec(bytes[i + 1], bytes[i + 2]) {
                output.push(byte);
                proof {
                    assert(rest.skip(3) =~= bytes@.skip(i + 3));
                    assert(output@ =~= before + seq![byte]);
                    assert(before + percent_decoded(rest) =~= output@ + percent_decoded(rest.skip(3)));
                }
                i = i + 3;
                continue;
            }
        }
        output.push(bytes[i]);
        proof {
            assert(rest.skip(1) =~= bytes@.skip(i + 1));
            assert(output@ =~= before + seq![bytes@[i as int]]);
            assert(before + percent_decoded(rest) =~= output@ + percent_decoded(rest.skip(1)));
        }
        i = i + 1;
    }
    proof {
        assert(bytes@.skip(i as int) =~= Seq::<u8>::empty());
        assert(output@ + Seq::<u8>::empty() =~= output@);
    }
    utf8_lossy_string(output.as_slice())
}


/// The byte that the encoder writes for a hex digit.
pub open spec fn hex_byte(d: nat) -> u8 {
    hex_digit_upper(d) as u8
}

proof fn lemma_encode_utf8_concat(a: Seq<char>, b: Seq<char>)
    ensures
        encode_utf8(a + b) == encode_utf8(a) + encode_utf8(b),
    decreases a.len(),
{
    if a.len() == 0 {
        assert(a + b =~= b);
        assert(encode_utf8(a) =~= Seq::<u8>::empty());
        assert(Seq::<u8>::empty() + encode_utf8(b) =~= encode_utf8(b));
    } else {
        lemma_encode_utf8_concat(a.drop_first(), b);
        assert((a + b).drop_first() =~= a.drop_first() + b);
        assert((a + b)[0] == a[0]);
        let head = encode_scalar(a[0] as u32);
        assert(head + (encode_utf8(a.drop_first()) + encode_utf8(b)) =~= (head + encode_utf8(
            a.drop_first(),
        )) + encode_utf8(b));
    }
}

proof fn lemma_encode_byte_bytes(b: u8)
    ensures
        encode_utf8(encode_byte(b)) == (if is_unreserved(b) {
            seq![b]
        } else {
            seq![37u8, hex_byte((b / 16) as nat), hex_byte((b % 16) as nat)]
        }),
{
    let c = encode_byte(b);
    assert(is_ascii_chars(c));
    is_ascii_chars_encode_utf8(c);
    if is_unreserved(b) {
        assert(encode_utf8(c) =~= seq![b]);
    } else {
        assert(encode_utf8(c) =~= seq![37u8, hex_byte((b / 16) as nat), hex_byte((b % 16) as nat)]);
    }
}

proof fn lemma_hex_byte_value(d: nat)
    requires
        d < 16,
    ensures
        hex_value(hex_byte(d)) == Some(d as u8),
        hex_byte(d) < 128,
{
}

proof fn lemma_decode_encoded(bytes: Seq<u8>)
    ensures
        forall|i: int|
            0 <= i < encode_utf8(percent_encoded(bytes)).len() ==> #[trigger] encode_utf8(
                percent_encoded(bytes),
            )[i] < 128,
        !decode_splits_char(encode_utf8(percent_encoded(bytes))),
        percent_decoded(encode_utf8(percent_encoded(bytes))) == bytes,
    decreases bytes.len(),
{
    let e = encode_utf8(percent_encoded(bytes));
    if bytes.len() == 0 {
        assert(e =~= Seq::<u8>::empty());
        assert(bytes =~= Seq::<u8>::empty());
    } else {
        let b = bytes[0];
        let rest = bytes.drop_first();
        lemma_decode_encoded(rest);
        let er = encode_utf8(percent_encoded(rest));
        lemma_encode_utf8_concat(encode_byte(b), percent_encoded(rest));
        lemma_encode_byte_bytes(b);
        if is_unreserved(b) {
            assert(e =~= seq![b] + er);
            assert(e.skip(1) =~= er);
            assert(e[0] == b);
            assert(percent_decoded(e) == seq![b] + percent_decoded(e.skip(1)));
            assert(bytes =~= seq![b] + rest);
        } else {
            let hi = hex_byte((b / 16) as nat);
            let lo = hex_byte((b % 16) as nat);
            lemma_hex_byte_value((b / 16) as nat);
            lemma_hex_byte_value((b % 16) as nat);
            assert(e =~= seq![37u8, hi, lo] + er);
            assert(e.skip(3) =~= er);
            assert(hex_pair(hi, lo) == Some(b));
            if e.len() > 3 {
                assert(e[3] == er[0]);
                assert(er[0] < 128);
            }
            assert(percent_decoded(e) == seq![b] + percent_decoded(e.skip(3)));
            assert(bytes =~= seq![b] + rest);
        }
    }
}

/// Decoding the encoder's output gives back the path that was encoded: the decoder never
/// slices inside a character there, recovers the path's exact bytes, and those
/// bytes are valid UTF-8 that decode to the path.
pub proof fn lemma_percent_round_trip(path: Seq<char>)
    ensures
        !decode_splits_char(encode_utf8(percent_encoded(encode_utf8(path)))),
        percent_decoded(encode_utf8(percent_encoded(encode_utf8(path)))) == encode_utf8(path),
        valid_utf8(encode_utf8(path)),
        decode_utf8(encode_utf8(path)) == path,
{
    lemma_decode_encoded(encode_utf8(path));
    encode_utf8_valid_utf8(path);
    encode_utf8_decode_utf8(path);
}

/// An upper-case hexadecimal digit.
pub open spec fn is_upper_hex_digit(c: char) -> bool {
    '0' <= c <= '9' || 'A' <= c <= 'F'
}

/// What the encoder writes for one byte: an unreserved byte as itself; any other
/// byte as `%` and two upper-case hex digits whose value is the byte. Encodings
/// of consecutive bytes are written one after another.
pub proof fn lemma_encoding_shape(b: u8, rest: Seq<u8>, more: Seq<u8>)
    ensures
        is_unreserved(b) ==> percent_encoded(seq![b]) == seq![b as char],
        !is_unreserved(b) ==> {
            let e = percent_encoded(seq![b]);
            &&& e.len() == 3
            &&& e[0] == '%'
            &&& is_upper_hex_digit(e[1])
            &&& is_upper_hex_digit(e[2])
            &&& hex_value(e[1] as u8) is Some
            &&& hex_value(e[2] as u8) is Some
            &&& hex_value(e[1] as u8)->0 * 16 + hex_value(e[2] as u8)->0 == b
        },
        percent_encoded(rest + more) == percent_encoded(rest) + percent_encoded(more),
{
    assert(seq![b].drop_first() =~= Seq::<u8>::empty());
    assert(percent_encoded(Seq::<u8>::empty()) =~= Seq::<char>::empty());
    assert(percent_encoded(seq![b]) =~= encode_byte(b));
    lemma_percent_encoded_concat(rest, more);
}

} // verus!
