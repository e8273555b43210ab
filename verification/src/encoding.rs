//! The percent encoding that carries keys, values and prefixes inside
//! URLs and request bodies.
//!
//! [`percent_encoded`] states the encoding exactly: the UTF-8 bytes of
//! the string, where every byte outside the unreserved set (ASCII
//! alphanumerics and `-`, `.`, `_`, `~`) becomes `%` followed by two
//! uppercase hexadecimal digits. The executable [`percent_encode`] is a
//! trusted wrapper over an outside implementation of that encoding.

use vstd::prelude::*;

verus! {

use vstd::utf8::encode_utf8;

/// True of the bytes that the percent encoding keeps as they are:
/// ASCII alphanumerics and `-`, `.`, `_`, `~`.
pub open spec fn is_unreserved_byte(b: u8) -> bool {
    ||| '0' as int <= b <= '9' as int
    ||| 'A' as int <= b <= 'Z' as int
    ||| 'a' as int <= b <= 'z' as int
    ||| b == '-' as int
    ||| b == '.' as int
    ||| b == '_' as int
    ||| b == '~' as int
}

/// The uppercase hexadecimal digit of a value below sixteen.
pub open spec fn hex_upper(d: int) -> char
    recommends
        0 <= d < 16,
{
    if d < 10 {
        ((d + '0' as int) as u8) as char
    } else {
        ((d - 10 + 'A' as int) as u8) as char
    }
}

/// The percent encoding of one byte: the byte itself when unreserved,
/// else `%` and its two hexadecimal digits.
pub open spec fn encoded_byte(b: u8) -> Seq<char> {
    if is_unreserved_byte(b) {
        seq![b as char]
    } else {
        seq!['%', hex_upper(b as int / 16), hex_upper(b as int % 16)]
    }
}

/// The percent encoding of a byte sequence, one byte after the next.
pub open spec fn encoded_bytes(bs: Seq<u8>) -> Seq<char>
    decreases bs.len(),
{
    if bs.len() == 0 {
        Seq::empty()
    } else {
        encoded_byte(bs.first()) + encoded_bytes(bs.drop_first())
    }
}

/// The percent encoding of a string: its UTF-8 bytes, each encoded.
pub open spec fn percent_encoded(s: Seq<char>) -> Seq<char> {
    encoded_bytes(encode_utf8(s))
}

/// Relies on urlencoding::encode, which percent-encodes every byte of
/// the UTF-8 form of `s` except ASCII alphanumerics and `-`, `.`, `_`,
/// `~`, writing `%` and two uppercase hexadecimal digits for each
/// escaped byte.
#[verifier::external_body]
pub(crate) fn percent_encode(s: &str) -> (r: String)
    ensures
        r@ == percent_encoded(s@),
{
    urlencoding::encode(s).into_owned()
}

/// True of the characters an encoded string is built from, besides the
/// escape `%` itself.
pub open spec fn is_unreserved_char(c: char) -> bool {
    ||| '0' <= c <= '9'
    ||| 'A' <= c <= 'Z'
    ||| 'a' <= c <= 'z'
    ||| c == '-'
    ||| c == '.'
    ||| c == '_'
    ||| c == '~'
}

/// Every character of an encoded byte sequence is unreserved or the
/// escape `%`. In particular no reserved URL character — `=`, `&`,
/// `/`, a space — and no line break survives encoding unescaped.
pub proof fn lemma_encoded_bytes_chars(bs: Seq<u8>)
    ensures
        forall|i: int|
            0 <= i < encoded_bytes(bs).len() ==> is_unreserved_char(
                #[trigger] encoded_bytes(bs)[i],
            ) || encoded_bytes(bs)[i] == '%',
    decreases bs.len(),
{
    if bs.len() > 0 {
        lemma_encoded_bytes_chars(bs.drop_first());
        let e = encoded_byte(bs.first());
        let rest = encoded_bytes(bs.drop_first());
        assert forall|i: int| 0 <= i < encoded_bytes(bs).len() implies is_unreserved_char(
            #[trigger] encoded_bytes(bs)[i],
        ) || encoded_bytes(bs)[i] == '%' by {
            if i < e.len() {
                assert(encoded_bytes(bs)[i] == e[i]);
                if is_unreserved_byte(bs.first()) {
                    assert(e[i] == bs.first() as char);
                } else if i == 1 {
                    lemma_hex_upper_unreserved(bs.first() as int / 16);
                } else if i == 2 {
                    lemma_hex_upper_unreserved(bs.first() as int % 16);
                }
            } else {
                assert(encoded_bytes(bs)[i] == rest[i - e.len()]);
            }
        }
    }
}

/// A hexadecimal digit is an unreserved character.
proof fn lemma_hex_upper_unreserved(d: int)
    requires
        0 <= d < 16,
    ensures
        is_unreserved_char(hex_upper(d)),
{
}

/// Every character of a percent-encoded string is unreserved or the
/// escape `%`.
pub proof fn lemma_percent_encoded_chars(s: Seq<char>)
    ensures
        forall|i: int|
            0 <= i < percent_encoded(s).len() ==> is_unreserved_char(
                #[trigger] percent_encoded(s)[i],
            ) || percent_encoded(s)[i] == '%',
{
    lemma_encoded_bytes_chars(encode_utf8(s));
}

/// The two hexadecimal digits identify their value.
proof fn lemma_hex_upper_injective(x: int, y: int)
    requires
        0 <= x < 16,
        0 <= y < 16,
        hex_upper(x) == hex_upper(y),
    ensures
        x == y,
{
    if x < 10 && y < 10 {
        assert(((x + '0' as int) as u8) as u32 == ((y + '0' as int) as u8) as u32);
    } else if x >= 10 && y >= 10 {
        assert(((x - 10 + 'A' as int) as u8) as u32 == ((y - 10 + 'A' as int) as u8) as u32);
    } else {
        assert(false);
    }
}

/// An encoded byte never opens with the escape of another: the byte
/// encoding is injective.
pub proof fn lemma_encoded_bytes_injective(a: Seq<u8>, b: Seq<u8>)
    requires
        encoded_bytes(a) == encoded_bytes(b),
    ensures
        a == b,
    decreases a.len(),
{
    if a.len() == 0 && b.len() == 0 {
        assert(a =~= b);
    } else if a.len() == 0 {
        assert(encoded_bytes(b).len() >= encoded_byte(b.first()).len());
        assert(false);
    } else if b.len() == 0 {
        assert(encoded_bytes(a).len() >= encoded_byte(a.first()).len());
        assert(false);
    } else {
        let a0 = a.first();
        let b0 = b.first();
        let ea = encoded_byte(a0);
        let eb = encoded_byte(b0);
        assert(encoded_bytes(a)[0] == ea[0]);
        assert(encoded_bytes(b)[0] == eb[0]);
        if is_unreserved_byte(a0) && is_unreserved_byte(b0) {
            assert(a0 as char == b0 as char);
            assert((a0 as char) as u32 == (b0 as char) as u32);
            assert(a0 == b0);
        } else if is_unreserved_byte(a0) && !is_unreserved_byte(b0) {
            assert(a0 as char == '%');
            assert((a0 as char) as u32 == 37);
            assert(a0 == 37);
            assert(false);
        } else if !is_unreserved_byte(a0) && is_unreserved_byte(b0) {
            assert(b0 as char == '%');
            assert((b0 as char) as u32 == 37);
            assert(b0 == 37);
            assert(false);
        } else {
            assert(encoded_bytes(a)[1] == ea[1] && encoded_bytes(a)[2] == ea[2]);
            assert(encoded_bytes(b)[1] == eb[1] && encoded_bytes(b)[2] == eb[2]);
            lemma_hex_upper_injective(a0 as int / 16, b0 as int / 16);
            lemma_hex_upper_injective(a0 as int % 16, b0 as int % 16);
            vstd::arithmetic::div_mod::lemma_fundamental_div_mod(a0 as int, 16);
            vstd::arithmetic::div_mod::lemma_fundamental_div_mod(b0 as int, 16);
            assert(a0 == b0);
        }
        assert(ea == eb);
        ea.lemma_concat_injective(
            encoded_bytes(a.drop_first()),
            encoded_bytes(b.drop_first()),
        );
        lemma_encoded_bytes_injective(a.drop_first(), b.drop_first());
        assert(a =~= b) by {
            assert forall|i: int| 0 < i < a.len() implies a[i] == b[i] by {
                assert(a[i] == a.drop_first()[i - 1]);
                assert(b[i] == b.drop_first()[i - 1]);
            }
        }
    }
}

/// Distinct strings never collide on the wire: the percent encoding is
/// injective.
pub proof fn lemma_percent_encoded_injective(a: Seq<char>, b: Seq<char>)
    requires
        percent_encoded(a) == percent_encoded(b),
    ensures
        a == b,
{
    lemma_encoded_bytes_injective(encode_utf8(a), encode_utf8(b));
    vstd::utf8::encode_utf8_decode_utf8(a);
    vstd::utf8::encode_utf8_decode_utf8(b);
}

} // verus!
