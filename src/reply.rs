//! Decoding of the four-byte reply tokens that a device answers with.

use vstd::prelude::*;
use vstd::slice::slice_subrange;

verus! {

/// The token of a reply that reports success.
pub open spec fn okay_token() -> Seq<u8> {
    seq![0x4f, 0x4b, 0x41, 0x59]  // O K A Y
}

/// The token of an informational reply.
pub open spec fn info_token() -> Seq<u8> {
    seq![0x49, 0x4e, 0x46, 0x4f]  // I N F O
}

/// The token of a reply that rejects a command.
pub open spec fn fail_token() -> Seq<u8> {
    seq![0x46, 0x41, 0x49, 0x4c]  // F A I L
}

/// The token of a reply that asks for a payload of a given size.
pub open spec fn data_token() -> Seq<u8> {
    seq![0x44, 0x41, 0x54, 0x41]  // D A T A
}

/// Text of bytes decoded as UTF-8, each invalid sequence replaced by U+FFFD.
pub uninterp spec fn lossy_text(b: Seq<u8>) -> Seq<char>;

/// Whether every byte is ASCII.
pub open spec fn is_ascii_bytes(b: Seq<u8>) -> bool {
    forall|i: int| 0 <= i < b.len() ==> #[trigger] b[i] < 128
}

/// ASCII bytes read as the characters they encode.
pub open spec fn ascii_text(b: Seq<u8>) -> Seq<char> {
    Seq::new(b.len(), |i: int| b[i] as char)
}

/// Text of bytes as the decoder reads it: ASCII as it is, anything else
/// decoded as UTF-8 with invalid sequences replaced.
pub open spec fn text_of(b: Seq<u8>) -> Seq<char> {
    if is_ascii_bytes(b) {
        ascii_text(b)
    } else {
        lossy_text(b)
    }
}

/// Relies on `String::from_utf8_lossy`: the text depends on the bytes alone,
/// and valid UTF-8, such as ASCII, comes back as the text it encodes.
#[verifier::external_body]
fn text_of_bytes(b: &[u8]) -> (r: String)
    ensures
        r@ == lossy_text(b@),
        is_ascii_bytes(b@) ==> r@ == ascii_text(b@),
{
    String::from_utf8_lossy(b).into_owned()
}

pub open spec fn is_hex_digit(c: u8) -> bool {
    (0x30 <= c <= 0x39) || (0x61 <= c <= 0x66) || (0x41 <= c <= 0x46)
}

pub open spec fn hex_digit_value(c: u8) -> nat {
    if 0x30 <= c <= 0x39 {
        (c - 0x30) as nat
    } else if 0x61 <= c <= 0x66 {
        (c - 0x61 + 10) as nat
    } else {
        (c - 0x41 + 10) as nat
    }
}

/// The number that a run of hex digits spells, most significant first.
pub open spec fn hex_number(s: Seq<u8>) -> nat
    decreases s.len(),
{
    if s.len() == 0 {
        0
    } else {
        hex_number(s.drop_last()) * 16 + hex_digit_value(s.last())
    }
}

pub open spec fn pow16(n: nat) -> nat
    decreases n,
{
    if n == 0 {
        1
    } else {
        16 * pow16((n - 1) as nat)
    }
}

/// Whether `s` is the size field of a `DATA` reply: exactly eight hex digits.
pub open spec fn is_size_field(s: Seq<u8>) -> bool {
    s.len() == 8 && forall|i: int| 0 <= i < s.len() ==> is_hex_digit(#[trigger] s[i])
}

/// Message of the failure that a `DATA` reply with a malformed size decodes to.
pub open spec fn size_error_text() -> Seq<char> {
    "Failed to decode DATA size"@
}

/// A decoded reply of the device.
#[derive(Debug, Clone, PartialEq, Eq)]
pub enum Reply {
    /// The command succeeded; the text may carry a variable's value.
    Okay(String),
    /// The device is ready for a payload of exactly this many bytes.
    Data(u32),
    /// The command was rejected, with the device's reason.
    Fail(String),
    /// An informational message.
    Info(String),
}

/// A reply as plain values.
pub enum ReplyView {
    Okay(Seq<char>),
    Data(nat),
    Fail(Seq<char>),
    Info(Seq<char>),
}

impl View for Reply {
    type V = ReplyView;

    open spec fn view(&self) -> ReplyView {
        match self {
            Reply::Okay(t) => ReplyView::Okay(t@),
            Reply::Data(n) => ReplyView::Data(*n as nat),
            Reply::Fail(t) => ReplyView::Fail(t@),
            Reply::Info(t) => ReplyView::Info(t@),
        }
    }
}

/// Whether the first four bytes of `b` are the token `t`.
pub open spec fn has_token(b: Seq<u8>, t: Seq<u8>) -> bool {
    b.len() >= 4 && b.take(4) == t
}

/// What a reply buffer decodes to: the first four bytes choose the kind and
/// the rest is its text or, for `DATA`, its size. A buffer without a known
/// token is a failure that carries the whole buffer as text.
pub open spec fn reply_of(b: Seq<u8>) -> ReplyView {
    if has_token(b, okay_token()) {
        ReplyView::Okay(text_of(b.skip(4)))
    } else if has_token(b, info_token()) {
        ReplyView::Info(text_of(b.skip(4)))
    } else if has_token(b, fail_token()) {
        ReplyView::Fail(text_of(b.skip(4)))
    } else if has_token(b, data_token()) {
        if is_size_field(b.skip(4)) {
            ReplyView::Data(hex_number(b.skip(4)))
        } else {
            ReplyView::Fail(size_error_text())
        }
    } else {
        ReplyView::Fail(text_of(b))
    }
}

proof fn lemma_pow16_monotonic(n: nat)
    requires
        n <= 8,
    ensures
        pow16(n) <= 4294967296,
    decreases 8 - n,
{
    reveal_with_fuel(pow16, 9);
    if n < 8 {
        lemma_pow16_monotonic(n + 1);
    }
}

fn is_hex_digit_exec(c: u8) -> (r: bool)
    ensures
        r == is_hex_digit(c),
{
    (0x30 <= c && c <= 0x39) || (0x61 <= c && c <= 0x66) || (0x41 <= c && c <= 0x46)
}

fn hex_digit_value_exec(c: u8) -> (r: u8)
    requires
        is_hex_digit(c),
    ensures
        r as nat == hex_digit_value(c),
        r < 16,
{
    if 0x30 <= c && c <= 0x39 {
        c - 0x30
    } else if 0x61 <= c && c <= 0x66 {
        c - 0x61 + 10
    } else {
        c - 0x41 + 10
    }
}

/// Reads the size field of a `DATA` reply: exactly eight hex digits, of
/// either case.
pub fn parse_size(s: &[u8]) -> (r: Option<u32>)
    ensures
        r == (if is_size_field(s@) {
            Some(hex_number(s@) as u32)
        } else {
            None::<u32>
        }),
        r is Some ==> r->Some_0 as nat == hex_number(s@),
{
    if s.len() != 8 {
        return None;
    }
    let mut acc: u64 = 0;
    let mut i: usize = 0;
    while i < 8
        invariant
            s@.len() == 8,
            0 <= i <= 8,
            forall|j: int| 0 <= j < i ==> is_hex_digit(#[trigger] s@[j]),
            acc as nat == hex_number(s@.take(i as int)),
            acc < pow16(i as nat),
        decreases 8 - i,
    {
        let c = s[i];
        if !is_hex_digit_exec(c) {
            return None;
        }
        proof {
            lemma_pow16_monotonic(i as nat);
            assert(s@.take(i + 1).drop_last() =~= s@.take(i as int));
        }
        acc = acc * 16 + hex_digit_value_exec(c) as u64;
        i = i + 1;
    }
    proof {
        lemma_pow16_monotonic(8);
        assert(s@.take(8) =~= s@);
    }
    Some(acc as u32)
}

fn starts_with(b: &[u8], t0: u8, t1: u8, t2: u8, t3: u8) -> (r: bool)
    requires
        b@.len() >= 4,
    ensures
        r == (b@.take(4) == seq![t0, t1, t2, t3]),
{
    let r = b[0] == t0 && b[1] == t1 && b[2] == t2 && b[3] == t3;
    proof {
        if r {
            assert(b@.take(4) =~= seq![t0, t1, t2, t3]);
        } else if b@.take(4) == seq![t0, t1, t2, t3] {
            assert(b@.take(4)[0] == t0 && b@.take(4)[1] == t1);
            assert(b@.take(4)[2] == t2 && b@.take(4)[3] == t3);
        }
    }
    r
}

/// The ASCII lowercase hex digit of a value below 16.
pub open spec fn lower_hex_digit(d: nat) -> u8 {
    if d < 10 {
        (0x30 + d) as u8
    } else {
        (0x61 + d - 10) as u8
    }
}

/// The last `width` lowercase hex digits of `n`, zero-padded, most significant first.
pub open spec fn hex_lower(n: nat, width: nat) -> Seq<u8>
    decreases width,
{
    if width == 0 {
        seq![]
    } else {
        hex_lower(n / 16, (width - 1) as nat).push(lower_hex_digit(n % 16))
    }
}

/// Appends the `width` lowercase hex digits of `n` to `out`.
pub fn push_hex(out: &mut Vec<u8>, n: u32, width: usize)
    ensures
        final(out)@ == old(out)@ + hex_lower(n as nat, width as nat),
    decreases width,
{
    if width == 0 {
        assert(old(out)@ + hex_lower(n as nat, 0) =~= old(out)@);
        return;
    }
    push_hex(out, n / 16, width - 1);
    let d: u8 = (n % 16) as u8;
    let c: u8 = if d < 10 { 0x30 + d } else { 0x61 + d - 10 };
    out.push(c);
    assert(final(out)@ =~= old(out)@ + hex_lower(n as nat, width as nat));
}

/// Digits written by `hex_lower` read back as the number they were made from.
pub proof fn lemma_hex_round_trip(n: nat, width: nat)
    requires
        n < pow16(width),
    ensures
        hex_lower(n, width).len() == width,
        forall|i: int| 0 <= i < width ==> is_hex_digit(#[trigger] hex_lower(n, width)[i]),
        hex_number(hex_lower(n, width)) == n,
    decreases width,
{
    if width > 0 {
        let w1 = (width - 1) as nat;
        assert(n / 16 < pow16(w1));
        lemma_hex_round_trip(n / 16, w1);
        let s = hex_lower(n, width);
        assert(s.drop_last() =~= hex_lower(n / 16, w1));
        assert(hex_digit_value(lower_hex_digit(n % 16)) == n % 16);
    }
}

proof fn lemma_tokens_differ(b: Seq<u8>)
    ensures
        has_token(b, okay_token()) ==> !has_token(b, info_token()) && !has_token(b, fail_token()) && !has_token(b, data_token()),
        has_token(b, info_token()) ==> !has_token(b, fail_token()) && !has_token(b, data_token()),
        has_token(b, fail_token()) ==> !has_token(b, data_token()),
{
    assert(okay_token()[0] != info_token()[0] && okay_token()[0] != fail_token()[0]);
    assert(okay_token()[0] != data_token()[0] && info_token()[0] != fail_token()[0]);
    assert(info_token()[0] != data_token()[0] && fail_token()[0] != data_token()[0]);
}

/// A buffer that starts with `OKAY` decodes to success, carrying the rest of
/// the buffer as text.
pub proof fn lemma_okay_reply(b: Seq<u8>)
    requires
        has_token(b, okay_token()),
    ensures
        reply_of(b) == ReplyView::Okay(text_of(b.skip(4))),
{
}

/// A buffer that starts with `DATA` decodes to the size that its eight hex
/// digits spell, and to a failure when the rest is not eight hex digits.
pub proof fn lemma_data_reply(b: Seq<u8>)
    requires
        has_token(b, data_token()),
    ensures
        is_size_field(b.skip(4)) ==> reply_of(b) == ReplyView::Data(hex_number(b.skip(4))),
        !is_size_field(b.skip(4)) ==> reply_of(b) == ReplyView::Fail(size_error_text()),
{
    lemma_tokens_differ(b);
}

/// `DATA` followed by the eight lowercase hex digits of `n` decodes to a
/// request for `n` bytes.
pub proof fn lemma_data_reply_of_size(n: nat)
    requires
        n < pow16(8),
    ensures
        reply_of(data_token() + hex_lower(n, 8)) == ReplyView::Data(n),
{
    let b = data_token() + hex_lower(n, 8);
    assert(b.take(4) =~= data_token());
    assert(b.skip(4) =~= hex_lower(n, 8));
    lemma_hex_round_trip(n, 8);
    lemma_data_reply(b);
}

impl Reply {
    /// Decodes a raw reply buffer. Never fails: a buffer that is too short or
    /// starts with no known token becomes a `Fail` that carries its text.
    pub fn decode(buf: &[u8]) -> (r: Reply)
        ensures
            r@ == reply_of(buf@),
    {
        if buf.len() < 4 {
            return Reply::Fail(text_of_bytes(buf));
        }
        let rest = slice_subrange(buf, 4, buf.len());
        assert(rest@ == buf@.skip(4));
        if starts_with(buf, 0x4f, 0x4b, 0x41, 0x59) {
            Reply::Okay(text_of_bytes(rest))
        } else if starts_with(buf, 0x49, 0x4e, 0x46, 0x4f) {
            Reply::Info(text_of_bytes(rest))
        } else if starts_with(buf, 0x46, 0x41, 0x49, 0x4c) {
            Reply::Fail(text_of_bytes(rest))
        } else if starts_with(buf, 0x44, 0x41, 0x54, 0x41) {
            match parse_size(rest) {
                Some(size) => Reply::Data(size),
                None => Reply::Fail("Failed to decode DATA size".to_owned()),
            }
        } else {
            Reply::Fail(text_of_bytes(buf))
        }
    }
}

} // verus!
