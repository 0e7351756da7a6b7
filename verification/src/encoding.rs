//! How parameter values are written into a query string: percent-encoding
//! of text and the decimal form of integers.

use vstd::prelude::*;
use vstd::utf8::*;

verus! {

/// `String::push`, which vstd leaves without a specification: the character
/// is appended at the end and nothing else changes.
pub assume_specification[ String::push ](s: &mut String, ch: char)
    ensures
        final(s)@ == old(s)@.push(ch),
;

/// The characters that a query string may hold as they are: ASCII letters
/// and digits, `-`, `.`, `_` and `~`.
pub open spec fn is_unreserved_char(c: char) -> bool {
    ||| 'A' <= c <= 'Z'
    ||| 'a' <= c <= 'z'
    ||| '0' <= c <= '9'
    ||| c == '-'
    ||| c == '.'
    ||| c == '_'
    ||| c == '~'
}

/// The bytes that stand for an unreserved character.
pub open spec fn is_unreserved(b: u8) -> bool {
    is_unreserved_char(b as char)
}

/// The upper-case hexadecimal digit for a value below sixteen.
pub open spec fn hex_digit(n: u8) -> char {
    if n < 10 {
        (0x30 + n) as u8 as char
    } else {
        (0x37 + n) as u8 as char
    }
}

/// One byte as it stands in a query string: itself when unreserved, else
/// `%` and its two hexadecimal digits.
pub open spec fn encode_byte(b: u8) -> Seq<char> {
    if is_unreserved(b) {
        seq![b as char]
    } else {
        seq!['%', hex_digit(b / 16), hex_digit(b % 16)]
    }
}

/// The percent-encoding of a byte string.
pub open spec fn percent_encode_bytes(bytes: Seq<u8>) -> Seq<char>
    decreases bytes.len(),
{
    if bytes.len() == 0 {
        Seq::empty()
    } else {
        encode_byte(bytes[0]) + percent_encode_bytes(bytes.skip(1))
    }
}

/// The percent-encoding of a text: that of its UTF-8 bytes.
pub open spec fn percent_encode(text: Seq<char>) -> Seq<char> {
    percent_encode_bytes(encode_utf8(text))
}

/// The decimal digits of a natural number, without leading zeros.
pub open spec fn digits(n: nat) -> Seq<char>
    decreases n,
{
    if n < 10 {
        seq![(0x30 + n) as u8 as char]
    } else {
        digits(n / 10) + seq![(0x30 + n % 10) as u8 as char]
    }
}

/// The decimal form of an integer, with `-` before a negative one.
pub open spec fn decimal(n: int) -> Seq<char> {
    if n < 0 {
        seq!['-'] + digits((-n) as nat)
    } else {
        digits(n as nat)
    }
}

/// The encoding of two byte strings put together is their encodings put
/// together.
pub proof fn lemma_percent_encode_concat(a: Seq<u8>, b: Seq<u8>)
    ensures
        percent_encode_bytes(a + b) == percent_encode_bytes(a) + percent_encode_bytes(b),
    decreases a.len(),
{
    if a.len() == 0 {
        assert(a + b == b);
    } else {
        assert((a + b).skip(1) == a.skip(1) + b);
        lemma_percent_encode_concat(a.skip(1), b);
    }
}

/// Encoding one byte more appends that byte's encoding.
proof fn lemma_percent_encode_step(bytes: Seq<u8>, i: int)
    requires
        0 <= i < bytes.len(),
    ensures
        percent_encode_bytes(bytes.take(i + 1)) == percent_encode_bytes(bytes.take(i))
            + encode_byte(bytes[i]),
{
    let one = seq![bytes[i]];
    assert(bytes.take(i + 1) == bytes.take(i) + one);
    lemma_percent_encode_concat(bytes.take(i), one);
    assert(percent_encode_bytes(one.skip(1)) == Seq::<char>::empty());
    assert(percent_encode_bytes(one) == encode_byte(bytes[i]));
}

/// The characters that an encoded text is made of: `%` and the unreserved
/// ones. None of them is a separator of a query string.
pub open spec fn is_encoded_char(c: char) -> bool {
    c == '%' || is_unreserved_char(c)
}

/// An encoded text holds neither `&` nor `=` nor `?`: only `%` and
/// unreserved characters.
pub proof fn lemma_percent_encode_chars(bytes: Seq<u8>)
    ensures
        forall|i: int|
            0 <= i < percent_encode_bytes(bytes).len() ==> is_encoded_char(
                #[trigger] percent_encode_bytes(bytes)[i],
            ),
    decreases bytes.len(),
{
    if bytes.len() > 0 {
        lemma_percent_encode_chars(bytes.skip(1));
        let head = encode_byte(bytes[0]);
        let tail = percent_encode_bytes(bytes.skip(1));
        assert forall|i: int| 0 <= i < (head + tail).len() implies is_encoded_char(
            #[trigger] (head + tail)[i],
        ) by {
            if i < head.len() {
                assert((head + tail)[i] == head[i]);
            } else {
                assert((head + tail)[i] == tail[i - head.len()]);
            }
        }
    }
}

/// Two byte strings with the same percent-encoding are the same.
pub proof fn lemma_percent_encode_bytes_injective(a: Seq<u8>, b: Seq<u8>)
    requires
        percent_encode_bytes(a) == percent_encode_bytes(b),
    ensures
        a == b,
    decreases a.len(),
{
    if a.len() == 0 || b.len() == 0 {
        if a.len() > 0 {
            assert(percent_encode_bytes(a).len() >= encode_byte(a[0]).len());
        }
        if b.len() > 0 {
            assert(percent_encode_bytes(b).len() >= encode_byte(b[0]).len());
        }
        assert(a =~= b);
    } else {
        let ha = encode_byte(a[0]);
        let hb = encode_byte(b[0]);
        let ta = percent_encode_bytes(a.skip(1));
        let tb = percent_encode_bytes(b.skip(1));
        assert((ha + ta)[0] == ha[0]);
        assert((hb + tb)[0] == hb[0]);
        assert(is_unreserved(a[0]) == is_unreserved(b[0]));
        if is_unreserved(a[0]) {
            assert(a[0] == b[0]);
        } else {
            assert((ha + ta)[1] == ha[1] && (ha + ta)[2] == ha[2]);
            assert((hb + tb)[1] == hb[1] && (hb + tb)[2] == hb[2]);
            assert(a[0] / 16 == b[0] / 16);
            assert(a[0] % 16 == b[0] % 16);
            assert(a[0] == b[0]);
        }
        assert(ha == hb);
        assert(ta =~= (ha + ta).skip(ha.len() as int));
        assert(tb =~= (hb + tb).skip(hb.len() as int));
        lemma_percent_encode_bytes_injective(a.skip(1), b.skip(1));
        assert(a =~= seq![a[0]] + a.skip(1));
        assert(b =~= seq![b[0]] + b.skip(1));
    }
}

/// Two texts with the same percent-encoding are the same.
pub proof fn lemma_percent_encode_injective(a: Seq<char>, b: Seq<char>)
    requires
        percent_encode(a) == percent_encode(b),
    ensures
        a == b,
{
    lemma_percent_encode_bytes_injective(encode_utf8(a), encode_utf8(b));
    encode_utf8_decode_utf8(a);
    encode_utf8_decode_utf8(b);
}

/// A text made of unreserved characters alone is its own encoding.
pub proof fn lemma_percent_encode_unreserved(text: Seq<char>)
    requires
        forall|i: int| 0 <= i < text.len() ==> is_unreserved_char(#[trigger] text[i]),
    ensures
        percent_encode(text) == text,
{
    assert(is_ascii_chars(text)) by {
        assert forall|i: int| 0 <= i < text.len() implies '\0' <= #[trigger] text[i]
            <= '\u{7f}' by {
            assert(is_unreserved_char(text[i]));
        }
    }
    is_ascii_chars_encode_utf8(text);
    lemma_unreserved_bytes(text, encode_utf8(text));
}

/// Bytes that stand for unreserved characters encode to those characters.
proof fn lemma_unreserved_bytes(text: Seq<char>, bytes: Seq<u8>)
    requires
        bytes.len() == text.len(),
        forall|i: int| 0 <= i < text.len() ==> is_unreserved_char(#[trigger] text[i]),
        forall|i: int| 0 <= i < text.len() ==> #[trigger] bytes[i] == text[i] as u8,
    ensures
        percent_encode_bytes(bytes) == text,
    decreases bytes.len(),
{
    if bytes.len() > 0 {
        assert forall|i: int| 0 <= i < text.skip(1).len() implies is_unreserved_char(
            #[trigger] text.skip(1)[i],
        ) by {
            assert(text.skip(1)[i] == text[i + 1]);
        }
        assert forall|i: int| 0 <= i < text.skip(1).len() implies #[trigger] bytes.skip(1)[i]
            == text.skip(1)[i] as u8 by {
            assert(bytes.skip(1)[i] == bytes[i + 1]);
            assert(text.skip(1)[i] == text[i + 1]);
        }
        lemma_unreserved_bytes(text.skip(1), bytes.skip(1));
        assert(is_unreserved_char(text[0]));
        assert(bytes[0] == text[0] as u8);
        assert(bytes[0] as char == text[0]);
        assert(text =~= seq![text[0]] + text.skip(1));
    } else {
        assert(text =~= Seq::<char>::empty());
    }
}

/// `digits(n)` is not empty, and each of its characters is a decimal digit.
pub proof fn lemma_digits_chars(n: nat)
    ensures
        digits(n).len() >= 1,
        n >= 10 ==> digits(n).len() >= 2,
        forall|i: int| 0 <= i < digits(n).len() ==> '0' <= #[trigger] digits(n)[i] <= '9',
    decreases n,
{
    if n >= 10 {
        lemma_digits_chars(n / 10);
    }
}

/// Two natural numbers with the same digits are the same.
pub proof fn lemma_digits_injective(a: nat, b: nat)
    requires
        digits(a) == digits(b),
    ensures
        a == b,
    decreases a,
{
    lemma_digits_chars(a);
    lemma_digits_chars(b);
    if a >= 10 && b >= 10 {
        let da = digits(a / 10);
        let db = digits(b / 10);
        let la = seq![(0x30 + a % 10) as u8 as char];
        let lb = seq![(0x30 + b % 10) as u8 as char];
        assert((da + la).last() == la[0]);
        assert((db + lb).last() == lb[0]);
        assert(a % 10 == b % 10);
        assert(da =~= (da + la).drop_last());
        assert(db =~= (db + lb).drop_last());
        lemma_digits_injective(a / 10, b / 10);
    } else if a < 10 && b < 10 {
        assert(digits(a)[0] == (0x30 + a) as u8 as char);
        assert(digits(b)[0] == (0x30 + b) as u8 as char);
    } else {
        assert(digits(a).len() == digits(b).len());
    }
}

/// Two integers with the same decimal form are the same.
pub proof fn lemma_decimal_injective(a: int, b: int)
    requires
        decimal(a) == decimal(b),
    ensures
        a == b,
{
    let ma = (if a < 0 { -a } else { a }) as nat;
    let mb = (if b < 0 { -b } else { b }) as nat;
    lemma_digits_chars(ma);
    lemma_digits_chars(mb);
    assert(decimal(a)[0] == decimal(b)[0]);
    if a < 0 {
        assert(decimal(a)[0] == '-');
    } else {
        assert(decimal(a)[0] == digits(ma)[0]);
    }
    if b < 0 {
        assert(decimal(b)[0] == '-');
    } else {
        assert(decimal(b)[0] == digits(mb)[0]);
    }
    assert((a < 0) == (b < 0));
    if a < 0 {
        assert(digits(ma) =~= decimal(a).skip(1));
        assert(digits(mb) =~= decimal(b).skip(1));
    }
    lemma_digits_injective(ma, mb);
}

/// The decimal form of an integer is made of unreserved characters, so it
/// needs no encoding.
pub proof fn lemma_percent_encode_decimal(n: int)
    ensures
        forall|i: int| 0 <= i < decimal(n).len() ==> is_unreserved_char(#[trigger] decimal(n)[i]),
        percent_encode(decimal(n)) == decimal(n),
{
    let m = (if n < 0 { -n } else { n }) as nat;
    lemma_digits_chars(m);
    assert forall|i: int| 0 <= i < decimal(n).len() implies is_unreserved_char(
        #[trigger] decimal(n)[i],
    ) by {
        if n < 0 && i > 0 {
            assert(decimal(n)[i] == digits(m)[i - 1]);
        }
    }
    lemma_percent_encode_unreserved(decimal(n));
}

/// Whether a byte may stand in a query string as it is.
fn unreserved(b: u8) -> (r: bool)
    ensures
        r == is_unreserved(b),
{
    (0x41 <= b && b <= 0x5a) || (0x61 <= b && b <= 0x7a) || (0x30 <= b && b <= 0x39) || b == 0x2d
        || b == 0x2e || b == 0x5f || b == 0x7e
}

/// The hexadecimal digit for a value below sixteen.
fn hex_char(n: u8) -> (c: char)
    requires
        n < 16,
    ensures
        c == hex_digit(n),
{
    if n < 10 {
        (0x30 + n) as char
    } else {
        (0x37 + n) as char
    }
}

/// Appends the percent-encoding of `text` to `out`.
pub fn push_encoded(out: &mut String, text: &str)
    ensures
        final(out)@ == old(out)@ + percent_encode(text@),
{
    let ghost before = out@;
    let bytes = text.as_bytes();
    let mut i: usize = 0;
    while i < bytes.len()
        invariant
            i <= bytes@.len(),
            out@ == before + percent_encode_bytes(bytes@.take(i as int)),
        decreases bytes@.len() - i,
    {
        let b = bytes[i];
        proof {
            lemma_percent_encode_step(bytes@, i as int);
        }
        if unreserved(b) {
            out.push(b as char);
        } else {
            out.push('%');
            out.push(hex_char(b / 16));
            out.push(hex_char(b % 16));
        }
        i += 1;
    }
    assert(bytes@.take(i as int) == bytes@);
}

/// Appends the decimal digits of `n` to `out`.
fn push_digits(out: &mut String, n: u32)
    ensures
        final(out)@ == old(out)@ + digits(n as nat),
    decreases n,
{
    if n >= 10 {
        push_digits(out, n / 10);
    }
    out.push((0x30 + (n % 10) as u8) as char);
}

/// Appends the decimal form of `n` to `out`.
pub fn push_decimal(out: &mut String, n: i32)
    ensures
        final(out)@ == old(out)@ + decimal(n as int),
{
    if n < 0 {
        out.push('-');
        push_digits(out, (-(n as i64)) as u32);
    } else {
        push_digits(out, n as u32);
    }
}

} // verus!
