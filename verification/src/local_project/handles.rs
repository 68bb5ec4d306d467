//! Source handles: how a record names the line it comes from.
use vstd::prelude::*;

use crate::ir::{digest_text, text_digest, OutputHandle, OutputHandleView};
use crate::text::{byte_len, cat3, cat5, string_of, text_bytes};

verus! {

/// The largest body that is stored inline, in bytes.
pub const INLINE_BODY_CEILING: usize = 16384;

/// The bytes that stand for themselves: ASCII letters and digits, `-`, `.`, `_` and `~`.
pub open spec fn is_unreserved(b: u8) -> bool {
    (65 <= b <= 90) || (97 <= b <= 122) || (48 <= b <= 57) || b == 45 || b == 46 || b == 95 || b
        == 126
}

/// A hexadecimal digit, in upper case.
pub open spec fn hex_digit(d: int) -> char {
    if d < 10 {
        ((48 + d) as u8) as char
    } else {
        ((55 + d) as u8) as char
    }
}

/// One byte as it is written: itself, or `%` and two hexadecimal digits.
pub open spec fn encoded_byte(b: u8) -> Seq<char> {
    if is_unreserved(b) {
        seq![b as char]
    } else {
        seq!['%', hex_digit(b as int / 16), hex_digit(b as int % 16)]
    }
}

pub open spec fn encoded_bytes(bytes: Seq<u8>) -> Seq<char>
    decreases bytes.len(),
{
    if bytes.len() == 0 {
        Seq::empty()
    } else {
        encoded_bytes(bytes.drop_last()) + encoded_byte(bytes.last())
    }
}

/// A text with every byte of its UTF-8 form written as above.
pub open spec fn encoded(s: Seq<char>) -> Seq<char> {
    encoded_bytes(vstd::utf8::encode_utf8(s))
}

fn hex_char(d: u8) -> (c: char)
    requires
        d < 16,
    ensures
        c == hex_digit(d as int),
{
    if d < 10 {
        (48 + d) as char
    } else {
        (55 + d) as char
    }
}

/// Percent-encodes a text for use in a source handle.
pub fn percent_encode(s: &str) -> (r: String)
    ensures
        r@ == encoded(s@),
{
    let bytes: &[u8] = s.as_bytes();
    let mut out: Vec<char> = Vec::new();
    let mut i: usize = 0;
    assert(bytes@.take(0) =~= Seq::empty());
    while i < bytes.len()
        invariant
            i <= bytes@.len(),
            out@ == encoded_bytes(bytes@.take(i as int)),
        decreases bytes.len() - i,
    {
        let b: u8 = bytes[i];
        proof {
            assert(bytes@.take(i + 1).drop_last() =~= bytes@.take(i as int));
            assert(bytes@.take(i + 1).last() == b);
        }
        let ghost before = out@;
        if (65 <= b && b <= 90) || (97 <= b && b <= 122) || (48 <= b && b <= 57) || b == 45 || b
            == 46 || b == 95 || b == 126 {
            out.push(b as char);
            assert(out@ =~= before + encoded_byte(b));
        } else {
            out.push('%');
            out.push(hex_char(b / 16));
            out.push(hex_char(b % 16));
            assert(out@ =~= before + encoded_byte(b));
        }
        i += 1;
    }
    assert(bytes@.take(bytes@.len() as int) =~= bytes@);
    string_of(&out)
}

/// The characters that an encoded text is made of.
pub open spec fn is_handle_char(c: char) -> bool {
    c == '%' || ((c as u32) < 128 && is_unreserved(c as u8))
}

proof fn lemma_encoded_byte_chars(b: u8)
    ensures
        forall|i: int|
            0 <= i < encoded_byte(b).len() ==> is_handle_char(#[trigger] encoded_byte(b)[i]),
        encoded_byte(b).len() > 0,
{
}

proof fn lemma_encoded_chars(bytes: Seq<u8>)
    ensures
        forall|i: int|
            0 <= i < encoded_bytes(bytes).len() ==> is_handle_char(
                #[trigger] encoded_bytes(bytes)[i],
            ),
    decreases bytes.len(),
{
    if bytes.len() > 0 {
        let init = encoded_bytes(bytes.drop_last());
        let tail = encoded_byte(bytes.last());
        lemma_encoded_chars(bytes.drop_last());
        lemma_encoded_byte_chars(bytes.last());
        assert forall|i: int| 0 <= i < encoded_bytes(bytes).len() implies is_handle_char(
            #[trigger] encoded_bytes(bytes)[i],
        ) by {
            if i < init.len() {
                assert(encoded_bytes(bytes)[i] == init[i]);
            } else {
                assert(encoded_bytes(bytes)[i] == tail[i - init.len()]);
            }
        }
    }
}

/// An encoded text holds only ASCII letters, digits, `-`, `.`, `_`, `~` and `%`.
pub proof fn law_encoded_alphabet(s: Seq<char>)
    ensures
        forall|i: int| 0 <= i < encoded(s).len() ==> is_handle_char(#[trigger] encoded(s)[i]),
{
    lemma_encoded_chars(vstd::utf8::encode_utf8(s));
}

/// The last character tells how a byte was written: behind an escape stand two more.
proof fn lemma_encoded_byte_injective(a: u8, b: u8)
    requires
        encoded_byte(a) == encoded_byte(b),
    ensures
        a == b,
{
    let x = encoded_byte(a);
    let y = encoded_byte(b);
    assert(x[0] == y[0]);
    if is_unreserved(a) {
        assert(x.len() == 1);
        assert(y.len() == 1);
        assert(x[0] == a as char && y[0] == b as char);
    } else {
        assert(x.len() == 3 && y.len() == 3);
        assert(x[1] == y[1] && x[2] == y[2]);
        lemma_hex_injective(a as int / 16, b as int / 16);
        lemma_hex_injective(a as int % 16, b as int % 16);
    }
}

proof fn lemma_hex_injective(a: int, b: int)
    requires
        0 <= a < 16,
        0 <= b < 16,
        hex_digit(a) == hex_digit(b),
    ensures
        a == b,
{
}

/// The characters of the first byte, read from the front.
proof fn lemma_encoded_front(bytes: Seq<u8>)
    requires
        bytes.len() > 0,
    ensures
        encoded_bytes(bytes) == encoded_byte(bytes[0]) + encoded_bytes(bytes.skip(1)),
    decreases bytes.len(),
{
    if bytes.len() == 1 {
        assert(bytes.drop_last() =~= Seq::empty());
        assert(bytes.skip(1) =~= Seq::empty());
        assert(encoded_bytes(bytes) =~= encoded_byte(bytes[0]) + encoded_bytes(bytes.skip(1)));
    } else {
        let init = bytes.drop_last();
        lemma_encoded_front(init);
        assert(bytes.skip(1).drop_last() =~= init.skip(1));
        assert(bytes.skip(1).last() == bytes.last());
        assert(encoded_bytes(bytes) =~= encoded_byte(bytes[0]) + encoded_bytes(bytes.skip(1)));
    }
}

proof fn lemma_encoded_bytes_injective(a: Seq<u8>, b: Seq<u8>)
    requires
        encoded_bytes(a) == encoded_bytes(b),
    ensures
        a == b,
    decreases a.len(),
{
    if a.len() == 0 {
        if b.len() > 0 {
            lemma_encoded_front(b);
            lemma_encoded_byte_chars(b[0]);
            assert(encoded_bytes(b).len() > 0);
            assert(encoded_bytes(a).len() == 0);
        }
        assert(a =~= b);
    } else if b.len() == 0 {
        lemma_encoded_front(a);
        lemma_encoded_byte_chars(a[0]);
        assert(encoded_bytes(a).len() > 0);
        assert(encoded_bytes(b).len() == 0);
    } else {
        lemma_encoded_front(a);
        lemma_encoded_front(b);
        let x = encoded_byte(a[0]);
        let y = encoded_byte(b[0]);
        let whole = encoded_bytes(a);
        assert(whole[0] == x[0] && whole[0] == y[0]);
        assert(x.len() == y.len()) by {
            if is_unreserved(a[0]) && !is_unreserved(b[0]) {
                assert(a[0] as char == '%');
            }
            if !is_unreserved(a[0]) && is_unreserved(b[0]) {
                assert(b[0] as char == '%');
            }
        }
        assert(x =~= whole.take(x.len() as int));
        assert(y =~= whole.take(y.len() as int));
        lemma_encoded_byte_injective(a[0], b[0]);
        assert(encoded_bytes(a.skip(1)) =~= whole.skip(x.len() as int));
        assert(encoded_bytes(b.skip(1)) =~= whole.skip(y.len() as int));
        lemma_encoded_bytes_injective(a.skip(1), b.skip(1));
        assert(a =~= seq![a[0]] + a.skip(1));
        assert(b =~= seq![b[0]] + b.skip(1));
    }
}

/// Different texts have different encodings.
pub proof fn law_encoded_injective(a: Seq<char>, b: Seq<char>)
    requires
        encoded(a) == encoded(b),
    ensures
        a == b,
{
    lemma_encoded_bytes_injective(vstd::utf8::encode_utf8(a), vstd::utf8::encode_utf8(b));
    vstd::utf8::encode_utf8_decode_utf8(a);
    vstd::utf8::encode_utf8_decode_utf8(b);
}

// ── Handles ─────────────────────────────────────────────────────────────────

/// The handle of a record's identity: its file and its local identity.
pub open spec fn identity_handle(file_rel: Seq<char>, local_id: Seq<char>) -> Seq<char> {
    encoded(file_rel) + ":"@ + encoded(local_id)
}

pub fn source_identity_handle(file_rel: &str, local_id: &str) -> (r: String)
    ensures
        r@ == identity_handle(file_rel@, local_id@),
{
    cat3(percent_encode(file_rel).as_str(), ":", percent_encode(local_id).as_str())
}

/// The handle of one line: the identity handle and the digest of the line.
pub open spec fn line_handle(
    file_rel: Seq<char>,
    local_id: Seq<char>,
    line: Seq<char>,
) -> Seq<char> {
    encoded(file_rel) + ":"@ + encoded(local_id) + ":"@ + text_digest(line)
}

pub fn source_handle_for_line(file_rel: &str, local_id: &str, line: &str) -> (r: String)
    ensures
        r@ == line_handle(file_rel@, local_id@, line@),
{
    cat5(
        percent_encode(file_rel).as_str(),
        ":",
        percent_encode(local_id).as_str(),
        ":",
        digest_text(line).as_str(),
    )
}

/// The first colon of an identity handle stands between its two parts.
proof fn lemma_handle_colon(a: Seq<char>, b: Seq<char>, c: Seq<char>, d: Seq<char>)
    requires
        encoded(a) + ":"@ + encoded(b) == encoded(c) + ":"@ + encoded(d),
        encoded(a).len() <= encoded(c).len(),
    ensures
        encoded(a).len() == encoded(c).len(),
{
    reveal_strlit(":");
    law_encoded_alphabet(c);
    let whole = encoded(a) + ":"@ + encoded(b);
    let n = encoded(a).len() as int;
    assert(whole[n] == ':');
    if n < encoded(c).len() {
        assert((encoded(c) + ":"@ + encoded(d))[n] == encoded(c)[n]);
        assert(is_handle_char(encoded(c)[n]));
    }
}

/// A file and a local identity can be read back from their handle.
pub proof fn law_identity_handle_injective(
    file_a: Seq<char>,
    id_a: Seq<char>,
    file_b: Seq<char>,
    id_b: Seq<char>,
)
    requires
        identity_handle(file_a, id_a) == identity_handle(file_b, id_b),
    ensures
        file_a == file_b,
        id_a == id_b,
{
    reveal_strlit(":");
    if encoded(file_a).len() <= encoded(file_b).len() {
        lemma_handle_colon(file_a, id_a, file_b, id_b);
    } else {
        lemma_handle_colon(file_b, id_b, file_a, id_a);
    }
    let whole = identity_handle(file_a, id_a);
    let n = encoded(file_a).len() as int;
    assert(encoded(file_a) =~= whole.take(n));
    assert(encoded(file_b) =~= whole.take(n));
    assert(encoded(id_a) =~= whole.skip(n + 1));
    assert(encoded(id_b) =~= whole.skip(n + 1));
    law_encoded_injective(file_a, file_b);
    law_encoded_injective(id_a, id_b);
}

/// The handle of a body: its digest and size, and its text where it is small.
pub open spec fn body_handle(body: Seq<char>) -> OutputHandleView {
    OutputHandleView {
        inline: if byte_len(body) <= INLINE_BODY_CEILING {
            Some(body)
        } else {
            None
        },
        hash: text_digest(body),
        bytes: byte_len(body) as u64,
    }
}

pub fn body_handle_for(body: &str) -> (r: OutputHandle)
    ensures
        r.deep_view() == body_handle(body@),
{
    let n: usize = text_bytes(body);
    OutputHandle {
        inline: if n <= INLINE_BODY_CEILING {
            Some(body.to_owned())
        } else {
            None
        },
        hash: digest_text(body),
        bytes: n as u64,
    }
}

} // verus!
