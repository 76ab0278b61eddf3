//! Operations on text that the gateway needs and the standard library
//! does not offer with a contract.
use vstd::prelude::*;
use vstd::string::StringExecFns;
use vstd::utf8::encode_utf8;

verus! {

/// `String::push`: appends one character.
#[verifier::external_body]
pub(crate) fn push_char(s: &mut String, c: char)
    ensures
        final(s)@ == old(s)@.push(c),
{
    s.push(c)
}

/// Whether a byte stands for itself in a URL: an ASCII letter, a digit, or
/// one of `-`, `.`, `_` and `~`.
pub open spec fn is_unreserved(b: u8) -> bool {
    ||| 0x30 <= b <= 0x39
    ||| 0x41 <= b <= 0x5a
    ||| 0x61 <= b <= 0x7a
    ||| b == 0x2d
    ||| b == 0x2e
    ||| b == 0x5f
    ||| b == 0x7e
}

/// The upper-case hexadecimal digit of a value below 16.
pub open spec fn hex_digit(n: u8) -> char {
    if n < 10 {
        (0x30 + n) as char
    } else {
        (0x41 + n - 10) as char
    }
}

/// One byte as it is written in a URL: itself where it is unreserved, and
/// otherwise a percent sign and its two hexadecimal digits.
pub open spec fn percent_encoded_byte(b: u8) -> Seq<char> {
    if is_unreserved(b) {
        seq![b as char]
    } else {
        seq!['%', hex_digit(b / 16), hex_digit(b % 16)]
    }
}

/// A sequence of bytes as it is written in a URL, byte by byte.
pub open spec fn percent_encoded(bytes: Seq<u8>) -> Seq<char> {
    bytes.map_values(|b: u8| percent_encoded_byte(b)).flatten()
}

fn hex_digit_of(n: u8) -> (c: char)
    requires
        n < 16,
    ensures
        c == hex_digit(n),
{
    if n < 10 {
        (0x30 + n) as char
    } else {
        (0x41 + n - 10) as char
    }
}

fn unreserved(b: u8) -> (r: bool)
    ensures
        r == is_unreserved(b),
{
    (0x30 <= b && b <= 0x39) || (0x41 <= b && b <= 0x5a) || (0x61 <= b && b <= 0x7a) || b == 0x2d
        || b == 0x2e || b == 0x5f || b == 0x7e
}

/// Writes a text as a component of a URL: its UTF-8 bytes, each unreserved
/// byte as it is and every other byte percent-encoded.
pub fn percent_encode(text: &str) -> (encoded: String)
    ensures
        encoded@ == percent_encoded(encode_utf8(text@)),
{
    let bytes = text.as_bytes();
    let ghost pieces = bytes@.map_values(|b: u8| percent_encoded_byte(b));
    let mut encoded = String::new();
    let mut i: usize = 0;
    while i < bytes.len()
        invariant
            i <= bytes.len(),
            pieces == bytes@.map_values(|b: u8| percent_encoded_byte(b)),
            encoded@ == pieces.take(i as int).flatten(),
        decreases bytes.len() - i,
    {
        let b = bytes[i];
        proof {
            assert(pieces.take(i + 1) == pieces.take(i as int).push(pieces[i as int]));
            pieces.take(i as int).lemma_flatten_push(pieces[i as int]);
        }
        if unreserved(b) {
            push_char(&mut encoded, b as char);
        } else {
            push_char(&mut encoded, '%');
            push_char(&mut encoded, hex_digit_of(b / 16));
            push_char(&mut encoded, hex_digit_of(b % 16));
        }
        assert(encoded@ == pieces.take(i as int).flatten() + pieces[i as int]);
        i += 1;
    }
    assert(pieces.take(i as int) == pieces);
    encoded
}

/// The two texts, one after the other.
pub fn join_texts(first: &str, second: &str) -> (joined: String)
    ensures
        joined@ == first@ + second@,
{
    let mut joined = first.to_owned();
    joined.append(second);
    joined
}

/// Whether a character can stand in a component of a URL without ending
/// it: the percent sign and the unreserved characters.
pub open spec fn is_url_safe(c: char) -> bool {
    c == '%' || (c as u32 <= 0x7e && is_unreserved(c as u8))
}

/// A percent-encoded text holds no character but the percent sign and the
/// unreserved ones: no space, and none of the characters that part a URL.
pub proof fn lemma_percent_encoded_is_url_safe(bytes: Seq<u8>)
    ensures
        forall|i: int|
            0 <= i < percent_encoded(bytes).len() ==> is_url_safe(
                #[trigger] percent_encoded(bytes)[i],
            ),
    decreases bytes.len(),
{
    if bytes.len() > 0 {
        let rest = bytes.drop_last();
        let last = bytes.last();
        let pieces = rest.map_values(|b: u8| percent_encoded_byte(b));
        lemma_percent_encoded_is_url_safe(rest);
        assert(bytes.map_values(|b: u8| percent_encoded_byte(b)) == pieces.push(
            percent_encoded_byte(last),
        ));
        pieces.lemma_flatten_push(percent_encoded_byte(last));
        assert(percent_encoded(bytes) == percent_encoded(rest) + percent_encoded_byte(last));
        assert forall|j: int| 0 <= j < percent_encoded_byte(last).len() implies is_url_safe(
            #[trigger] percent_encoded_byte(last)[j],
        ) by {
            if !is_unreserved(last) {
                assert(is_url_safe(hex_digit(last / 16)));
                assert(is_url_safe(hex_digit(last % 16)));
            }
        }
    } else {
        assert(bytes.map_values(|b: u8| percent_encoded_byte(b)).flatten() == Seq::<char>::empty());
    }
}

proof fn lemma_percent_encoded_unfold(bytes: Seq<u8>)
    requires
        bytes.len() > 0,
    ensures
        percent_encoded(bytes) == percent_encoded_byte(bytes[0]) + percent_encoded(
            bytes.drop_first(),
        ),
{
    let pieces = bytes.map_values(|b: u8| percent_encoded_byte(b));
    assert(pieces.drop_first() == bytes.drop_first().map_values(|b: u8| percent_encoded_byte(b)));
}

/// Percent-encoding loses nothing: byte sequences with the same encoding
/// are the same.
pub proof fn lemma_percent_encoded_injective(a: Seq<u8>, b: Seq<u8>)
    requires
        percent_encoded(a) == percent_encoded(b),
    ensures
        a == b,
    decreases a.len(),
{
    let ea = percent_encoded(a);
    let eb = percent_encoded(b);
    if a.len() == 0 {
        if b.len() > 0 {
            lemma_percent_encoded_unfold(b);
            assert(eb.len() > 0);
        }
        assert(a == b);
    } else {
        lemma_percent_encoded_unfold(a);
        let pa = percent_encoded_byte(a[0]);
        let ra = percent_encoded(a.drop_first());
        assert(ea[0] == pa[0]);
        assert(b.len() > 0);
        lemma_percent_encoded_unfold(b);
        let pb = percent_encoded_byte(b[0]);
        let rb = percent_encoded(b.drop_first());
        assert(eb[0] == pb[0]);
        if is_unreserved(a[0]) {
            assert(pb[0] != '%');
            assert(a[0] == b[0]);
        } else {
            assert(!is_unreserved(b[0]));
            assert(ea[1] == pa[1] && ea[2] == pa[2]);
            assert(eb[1] == pb[1] && eb[2] == pb[2]);
            assert(a[0] / 16 == b[0] / 16);
            assert(a[0] % 16 == b[0] % 16);
            assert(a[0] == b[0]);
        }
        assert(ra == ea.subrange(pa.len() as int, ea.len() as int));
        assert(rb == eb.subrange(pb.len() as int, eb.len() as int));
        lemma_percent_encoded_injective(a.drop_first(), b.drop_first());
        assert(a == seq![a[0]] + a.drop_first());
        assert(b == seq![b[0]] + b.drop_first());
    }
}

} // verus!
