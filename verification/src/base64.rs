//! Standard (RFC 4648, padded) base64 encoding, used to embed screenshots in
//! vision requests as `data:` URLs.
use vstd::prelude::*;
use crate::text::{push_char, string_from, append_str};

verus! {

/// The base64 alphabet symbol for the six-bit value `v` (`v < 64`).
pub open spec fn b64_symbol(v: u32) -> char {
    if v < 26 {
        ((65 + v) as u8) as char
    } else if v < 52 {
        ((97 + v - 26) as u8) as char
    } else if v < 62 {
        ((48 + v - 52) as u8) as char
    } else if v == 62 {
        '+'
    } else {
        '/'
    }
}

/// The 24-bit group of up to three bytes (missing bytes read as zero).
pub open spec fn b64_group_value(chunk: Seq<u8>) -> u32 {
    let a = chunk[0] as u32;
    let b = if chunk.len() > 1 { chunk[1] as u32 } else { 0u32 };
    let c = if chunk.len() > 2 { chunk[2] as u32 } else { 0u32 };
    (a << 16u32) | (b << 8u32) | c
}

/// The four symbols encoding a chunk of one to three bytes, padded with `=`.
pub open spec fn b64_quad(chunk: Seq<u8>) -> Seq<char> {
    let v = b64_group_value(chunk);
    seq![
        b64_symbol((v >> 18u32) & 63u32),
        b64_symbol((v >> 12u32) & 63u32),
        if chunk.len() > 1 { b64_symbol((v >> 6u32) & 63u32) } else { '=' },
        if chunk.len() > 2 { b64_symbol(v & 63u32) } else { '=' },
    ]
}

/// The padded base64 encoding of `bytes`.
pub open spec fn base64_of(bytes: Seq<u8>) -> Seq<char>
    decreases bytes.len(),
{
    if bytes.len() == 0 {
        seq![]
    } else if bytes.len() <= 3 {
        b64_quad(bytes)
    } else {
        b64_quad(bytes.take(3)) + base64_of(bytes.skip(3))
    }
}

fn b64_symbol_exec(v: u32) -> (c: char)
    requires
        v < 64,
    ensures
        c == b64_symbol(v),
{
    let b: u8 = v as u8;
    if b < 26 {
        (65u8 + b) as char
    } else if b < 52 {
        (97u8 + b - 26u8) as char
    } else if b < 62 {
        (48u8 + b - 52u8) as char
    } else if b == 62 {
        '+'
    } else {
        '/'
    }
}

/// Base64 encoding of `bytes` with `=` padding.
pub fn base64_encode(bytes: &[u8]) -> (r: String)
    ensures
        r@ == base64_of(bytes@),
{
    let mut output = String::new();
    let n = bytes.len();
    let mut start: usize = 0;
    assert(bytes@.skip(0) =~= bytes@);
    while start < n
        invariant
            n == bytes@.len(),
            start <= n,
            base64_of(bytes@) == output@ + base64_of(bytes@.skip(start as int)),
        decreases n - start,
    {
        let rest = n - start;
        let chunk_len: usize = if rest < 3 {
            rest
        } else {
            3
        };
        let ghost tail = bytes@.skip(start as int);
        let ghost chunk = tail.take(chunk_len as int);
        let a = bytes[start] as u32;
        let b = if chunk_len > 1 {
            bytes[start + 1] as u32
        } else {
            0u32
        };
        let c = if chunk_len > 2 {
            bytes[start + 2] as u32
        } else {
            0u32
        };
        assert(chunk[0] == bytes@[start as int]);
        assert(chunk_len > 1 ==> chunk[1] == bytes@[start + 1]);
        assert(chunk_len > 2 ==> chunk[2] == bytes@[start + 2]);
        let value: u32 = (a << 16u32) | (b << 8u32) | c;
        assert(value == b64_group_value(chunk));
        assert(((value >> 18u32) & 63u32) < 64u32) by (bit_vector);
        assert(((value >> 12u32) & 63u32) < 64u32) by (bit_vector);
        assert(((value >> 6u32) & 63u32) < 64u32) by (bit_vector);
        assert((value & 63u32) < 64u32) by (bit_vector);
        let ghost before = output@;
        push_char(&mut output, b64_symbol_exec((value >> 18u32) & 63u32));
        push_char(&mut output, b64_symbol_exec((value >> 12u32) & 63u32));
        push_char(
            &mut output,
            if chunk_len > 1 {
                b64_symbol_exec((value >> 6u32) & 63u32)
            } else {
                '='
            },
        );
        push_char(
            &mut output,
            if chunk_len > 2 {
                b64_symbol_exec(value & 63u32)
            } else {
                '='
            },
        );
        assert(output@ =~= before + b64_quad(chunk));
        if rest <= 3 {
            assert(chunk =~= tail);
            assert(bytes@.skip(n as int) =~= Seq::<u8>::empty());
        } else {
            assert(tail.skip(3) =~= bytes@.skip(start + 3));
        }
        start = start + chunk_len;
    }
    assert(bytes@.skip(n as int) =~= Seq::<u8>::empty());
    assert(output@ =~= base64_of(bytes@));
    output
}

/// Whether `c` belongs to the base64 alphabet: `A`-`Z`, `a`-`z`, `0`-`9`,
/// `+` and `/`.
pub open spec fn is_b64_symbol(c: char) -> bool {
    let v = c as u32;
    (65 <= v <= 90) || (97 <= v <= 122) || (48 <= v <= 57) || v == 43 || v == 47
}

/// How many `=` close the encoding of `n` bytes.
pub open spec fn b64_padding(n: nat) -> nat {
    if n % 3 == 0 {
        0
    } else {
        (3 - n % 3) as nat
    }
}

proof fn lemma_symbol_in_alphabet(v: u32)
    requires
        v < 64,
    ensures
        is_b64_symbol(b64_symbol(v)),
        b64_symbol(v) != '=',
{
}

proof fn lemma_quad_shape(chunk: Seq<u8>)
    requires
        1 <= chunk.len() <= 3,
    ensures
        b64_quad(chunk).len() == 4,
        forall|i: int|
            0 <= i < 4 ==> ((#[trigger] b64_quad(chunk)[i] == '=') <==> i >= 4 - b64_padding(
                chunk.len(),
            )),
        forall|i: int|
            0 <= i < 4 && b64_quad(chunk)[i] != '=' ==> is_b64_symbol(#[trigger] b64_quad(chunk)[i]),
{
    let v = b64_group_value(chunk);
    assert(((v >> 18u32) & 63u32) < 64u32) by (bit_vector);
    assert(((v >> 12u32) & 63u32) < 64u32) by (bit_vector);
    assert(((v >> 6u32) & 63u32) < 64u32) by (bit_vector);
    assert((v & 63u32) < 64u32) by (bit_vector);
    lemma_symbol_in_alphabet((v >> 18u32) & 63u32);
    lemma_symbol_in_alphabet((v >> 12u32) & 63u32);
    lemma_symbol_in_alphabet((v >> 6u32) & 63u32);
    lemma_symbol_in_alphabet(v & 63u32);
}

/// The encoding of `n` bytes has `4 * ceil(n / 3)` symbols; a symbol is `=`
/// exactly in the last `b64_padding(n)` places (two after a lone byte, one
/// after a pair), and every other symbol is from the base64 alphabet.
pub proof fn law_base64_length_and_alphabet(bytes: Seq<u8>)
    ensures
        base64_of(bytes).len() == 4 * ((bytes.len() + 2) / 3),
        forall|i: int|
            0 <= i < base64_of(bytes).len() ==> ((#[trigger] base64_of(bytes)[i] == '=') <==> i
                >= base64_of(bytes).len() - b64_padding(bytes.len())),
        forall|i: int|
            0 <= i < base64_of(bytes).len() && base64_of(bytes)[i] != '=' ==> is_b64_symbol(
                #[trigger] base64_of(bytes)[i],
            ),
    decreases bytes.len(),
{
    if bytes.len() == 0 {
    } else if bytes.len() <= 3 {
        lemma_quad_shape(bytes);
    } else {
        let head = bytes.take(3);
        let tail = bytes.skip(3);
        lemma_quad_shape(head);
        law_base64_length_and_alphabet(tail);
        let e = base64_of(bytes);
        let r = base64_of(tail);
        assert(e == b64_quad(head) + r);
        assert(b64_padding(tail.len()) == b64_padding(bytes.len()));
        assert forall|i: int| 0 <= i < e.len() implies ((#[trigger] e[i] == '=') <==> i >= e.len()
            - b64_padding(bytes.len())) && (e[i] != '=' ==> is_b64_symbol(e[i])) by {
            if i < 4 {
                assert(e[i] == b64_quad(head)[i]);
            } else {
                assert(e[i] == r[i - 4]);
            }
        }
    }
}

/// The six-bit value of a symbol of the base64 alphabet.
pub open spec fn b64_value(c: char) -> u32 {
    let v = c as u32;
    if 65 <= v <= 90 {
        (v - 65) as u32
    } else if 97 <= v <= 122 {
        (v - 71) as u32
    } else if 48 <= v <= 57 {
        (v + 4) as u32
    } else if v == 43 {
        62
    } else {
        63
    }
}

/// The bytes held by one group of four symbols (RFC 4648): three, or two
/// when the group ends with one `=`, or one when it ends with two.
pub open spec fn b64_decode_quad(q: Seq<char>) -> Seq<u8> {
    let s2 = if q[2] == '=' { 0u32 } else { b64_value(q[2]) };
    let s3 = if q[3] == '=' { 0u32 } else { b64_value(q[3]) };
    let v = (b64_value(q[0]) << 18u32) | (b64_value(q[1]) << 12u32) | (s2 << 6u32) | s3;
    if q[2] == '=' {
        seq![(v >> 16u32) as u8]
    } else if q[3] == '=' {
        seq![(v >> 16u32) as u8, (v >> 8u32) as u8]
    } else {
        seq![(v >> 16u32) as u8, (v >> 8u32) as u8, v as u8]
    }
}

/// Standard base64 decoding of padded text, group by group.
pub open spec fn base64_decoded(text: Seq<char>) -> Seq<u8>
    decreases text.len(),
{
    if text.len() < 4 {
        seq![]
    } else {
        b64_decode_quad(text.take(4)) + base64_decoded(text.skip(4))
    }
}

proof fn lemma_symbol_value(v: u32)
    requires
        v < 64,
    ensures
        b64_value(b64_symbol(v)) == v,
{
}

proof fn lemma_regroup(a: u32, b: u32, c: u32)
    by (bit_vector)
    requires
        a < 256,
        b < 256,
        c < 256,
    ensures
        ({
            let v = (a << 16u32) | (b << 8u32) | c;
            let s0 = (v >> 18u32) & 63u32;
            let s1 = (v >> 12u32) & 63u32;
            let s2 = (v >> 6u32) & 63u32;
            let s3 = v & 63u32;
            &&& ((((s0 << 18u32) | (s1 << 12u32) | (s2 << 6u32) | s3) >> 16u32) as u8) as u32 == a
            &&& ((((s0 << 18u32) | (s1 << 12u32) | (s2 << 6u32) | s3) >> 8u32) as u8) as u32 == b
            &&& (((s0 << 18u32) | (s1 << 12u32) | (s2 << 6u32) | s3) as u8) as u32 == c
            &&& ((((s0 << 18u32) | (s1 << 12u32) | (s2 << 6u32) | 0u32) >> 16u32) as u8) as u32 == a
            &&& ((((s0 << 18u32) | (s1 << 12u32) | (s2 << 6u32) | 0u32) >> 8u32) as u8) as u32 == b
            &&& ((((s0 << 18u32) | (s1 << 12u32) | (0u32 << 6u32) | 0u32) >> 16u32) as u8) as u32 == a
        }),
{
}

proof fn lemma_quad_decodes(chunk: Seq<u8>)
    requires
        1 <= chunk.len() <= 3,
    ensures
        b64_decode_quad(b64_quad(chunk)) == chunk,
{
    let a = chunk[0] as u32;
    let b = if chunk.len() > 1 { chunk[1] as u32 } else { 0u32 };
    let c = if chunk.len() > 2 { chunk[2] as u32 } else { 0u32 };
    let v = b64_group_value(chunk);
    assert(v == (a << 16u32) | (b << 8u32) | c);
    assert(((v >> 18u32) & 63u32) < 64u32) by (bit_vector);
    assert(((v >> 12u32) & 63u32) < 64u32) by (bit_vector);
    assert(((v >> 6u32) & 63u32) < 64u32) by (bit_vector);
    assert((v & 63u32) < 64u32) by (bit_vector);
    lemma_symbol_in_alphabet((v >> 18u32) & 63u32);
    lemma_symbol_in_alphabet((v >> 12u32) & 63u32);
    lemma_symbol_in_alphabet((v >> 6u32) & 63u32);
    lemma_symbol_in_alphabet(v & 63u32);
    lemma_symbol_value((v >> 18u32) & 63u32);
    lemma_symbol_value((v >> 12u32) & 63u32);
    lemma_symbol_value((v >> 6u32) & 63u32);
    lemma_symbol_value(v & 63u32);
    lemma_regroup(a, b, c);
    assert(b64_decode_quad(b64_quad(chunk)) =~= chunk);
}

/// Decoding the encoding gives the bytes back: standard base64 decoding of
/// `base64_of(bytes)` is `bytes`.
pub proof fn law_base64_decodes_back(bytes: Seq<u8>)
    ensures
        base64_decoded(base64_of(bytes)) == bytes,
    decreases bytes.len(),
{
    if bytes.len() == 0 {
        assert(base64_decoded(base64_of(bytes)) =~= bytes);
    } else if bytes.len() <= 3 {
        lemma_quad_decodes(bytes);
        lemma_quad_shape(bytes);
        let e = b64_quad(bytes);
        assert(e.take(4) =~= e);
        assert(e.skip(4) =~= Seq::<char>::empty());
        assert(base64_decoded(e.skip(4)) =~= Seq::<u8>::empty());
        assert(base64_decoded(e) == b64_decode_quad(e.take(4)) + base64_decoded(e.skip(4)));
        assert(bytes + Seq::<u8>::empty() =~= bytes);
    } else {
        let head = bytes.take(3);
        let tail = bytes.skip(3);
        lemma_quad_decodes(head);
        lemma_quad_shape(head);
        law_base64_decodes_back(tail);
        let e = base64_of(bytes);
        assert(e == b64_quad(head) + base64_of(tail));
        assert(e.take(4) =~= b64_quad(head));
        assert(e.skip(4) =~= base64_of(tail));
        assert(base64_decoded(e) == b64_decode_quad(e.take(4)) + base64_decoded(e.skip(4)));
        assert(head + tail =~= bytes);
    }
}

/// The `data:` URL under which a PNG screenshot is sent to the vision model.
pub open spec fn png_data_url(bytes: Seq<u8>) -> Seq<char> {
    "data:image/png;base64,"@ + base64_of(bytes)
}

/// `data:image/png;base64,` followed by the base64 encoding of `bytes`.
pub fn image_data_url(bytes: &[u8]) -> (r: String)
    ensures
        r@ == png_data_url(bytes@),
{
    let mut url = string_from("data:image/png;base64,");
    let encoded = base64_encode(bytes);
    append_str(&mut url, encoded.as_str());
    url
}

} // verus!
