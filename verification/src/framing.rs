//! Partial-data framing for non-blocking reads.
//!
//! Bytes arriving from the transport channel may end in the middle of a
//! multi-byte UTF-8 character.  The framing layer splits a byte buffer
//! into its longest decodable prefix (handed to the caller as text) and
//! an undecodable tail.  A tail that is a proper prefix of one
//! character's encoding is retained for the next read, so a character
//! split across two reads is delayed, never corrupted; any other tail is
//! flushed so the pending buffer stays bounded by the maximum encoding
//! width.

use vstd::prelude::*;
use vstd::utf8::*;

verus! {

/// True when `b` can begin the encoding of a scalar that needs more
/// than one byte.  Bytes `0xc0`/`0xc1` only begin overlong encodings and
/// bytes above `0xf4` only begin values beyond the scalar range, so
/// neither can begin any valid encoding.
pub open spec fn starts_width_2_plus(b: u8) -> bool {
    0xc2 <= b <= 0xdf || 0xe0 <= b <= 0xef || 0xf0 <= b <= 0xf4
}

/// True when `b` can begin the encoding of a scalar that needs at least
/// three bytes.
pub open spec fn starts_width_3_plus(b: u8) -> bool {
    0xe0 <= b <= 0xef || 0xf0 <= b <= 0xf4
}

/// True when `b` can begin the encoding of a scalar that needs four
/// bytes.
pub open spec fn starts_width_4(b: u8) -> bool {
    0xf0 <= b <= 0xf4
}

/// True when `b1` can follow leading byte `b0` in a valid encoding of
/// width three or more.  The narrowed ranges after `0xe0`, `0xed`,
/// `0xf0` and `0xf4` rule out overlong encodings, surrogates, and
/// values beyond the scalar range.
pub open spec fn continues_leading(b0: u8, b1: u8) -> bool {
    if b0 == 0xe0 {
        0xa0 <= b1 <= 0xbf
    } else if b0 == 0xed {
        0x80 <= b1 <= 0x9f
    } else if b0 == 0xf0 {
        0x90 <= b1 <= 0xbf
    } else if b0 == 0xf4 {
        0x80 <= b1 <= 0x8f
    } else {
        is_continuation_byte(b1)
    }
}

/// True when `t` is a proper prefix of the encoding of some Unicode
/// scalar: the empty sequence, or one to three bytes that some further
/// bytes could complete into a valid encoding.
pub open spec fn scalar_prefix(t: Seq<u8>) -> bool {
    ||| t.len() == 0
    ||| (t.len() == 1 && starts_width_2_plus(t[0]))
    ||| (t.len() == 2 && starts_width_3_plus(t[0]) && continues_leading(t[0], t[1]))
    ||| (t.len() == 3 && starts_width_4(t[0]) && continues_leading(t[0], t[1])
        && is_continuation_byte(t[2]))
}

/// Length of the longest prefix of `bytes` that is a concatenation of
/// valid scalar encodings: the greedy decodable prefix.
pub open spec fn decodable_len(bytes: Seq<u8>) -> nat
    decreases bytes.len(),
{
    if !valid_first_scalar(bytes) {
        0
    } else {
        (length_of_first_scalar(bytes) + decodable_len(pop_first_scalar(bytes))) as nat
    }
}

/// The decodable prefix of a pending buffer: what one read hands to the
/// caller.
pub open spec fn drained_text_bytes(b: Seq<u8>) -> Seq<u8> {
    b.take(decodable_len(b) as int)
}

/// What stays in the pending buffer after a read: the undecodable tail
/// if it may still be completed into one character, nothing otherwise.
pub open spec fn retained_tail(b: Seq<u8>) -> Seq<u8> {
    let t = b.skip(decodable_len(b) as int);
    if scalar_prefix(t) {
        t
    } else {
        Seq::<u8>::empty()
    }
}

/// A valid first scalar fits within the sequence and is one to four
/// bytes long.
pub proof fn lemma_first_scalar_len(s: Seq<u8>)
    requires
        valid_first_scalar(s),
    ensures
        1 <= length_of_first_scalar(s) <= 4,
        length_of_first_scalar(s) <= s.len(),
{
}

/// The greedy decodable prefix never exceeds the sequence.
pub proof fn lemma_decodable_len_le(s: Seq<u8>)
    ensures
        decodable_len(s) <= s.len(),
    decreases s.len(),
{
    if valid_first_scalar(s) {
        lemma_first_scalar_len(s);
        lemma_decodable_len_le(pop_first_scalar(s));
    }
}

/// A sequence is valid UTF-8 exactly when its greedy decodable prefix
/// covers all of it.
pub proof fn lemma_valid_utf8_decodable(s: Seq<u8>)
    ensures
        valid_utf8(s) <==> decodable_len(s) == s.len(),
    decreases s.len(),
{
    lemma_decodable_len_le(s);
    if s.len() == 0 {
    } else if valid_first_scalar(s) {
        lemma_first_scalar_len(s);
        lemma_valid_utf8_decodable(pop_first_scalar(s));
        lemma_decodable_len_le(pop_first_scalar(s));
    }
}

/// The greedy decodable prefix is valid UTF-8.
pub proof fn lemma_drained_valid(s: Seq<u8>)
    ensures
        valid_utf8(drained_text_bytes(s)),
    decreases s.len(),
{
    lemma_decodable_len_le(s);
    if valid_first_scalar(s) {
        lemma_first_scalar_len(s);
        let w = length_of_first_scalar(s);
        let rest = pop_first_scalar(s);
        lemma_drained_valid(rest);
        lemma_decodable_len_le(rest);
        let p = drained_text_bytes(s);
        assert(valid_first_scalar(p)) by {
            lemma_first_scalar_extend(s.take(w), p.skip(w));
            assert(s.take(w) + p.skip(w) =~= p);
            assert(s.take(w) =~= s.take(w) + Seq::<u8>::empty());
            lemma_first_scalar_extend(s, Seq::<u8>::empty());
            assert(s + Seq::<u8>::empty() =~= s);
            assert(valid_first_scalar(s.take(w))) by {
                lemma_first_scalar_shrink(s, w);
            }
        }
        assert(pop_first_scalar(p) =~= drained_text_bytes(rest));
        assert(valid_utf8(p));
    } else {
        assert(drained_text_bytes(s) =~= Seq::<u8>::empty());
    }
}

/// Validity and width of the first scalar are unchanged by appending
/// bytes: they depend only on the scalar's own bytes.
pub proof fn lemma_first_scalar_extend(s: Seq<u8>, u: Seq<u8>)
    requires
        valid_first_scalar(s),
    ensures
        valid_first_scalar(s + u),
        length_of_first_scalar(s + u) == length_of_first_scalar(s),
        pop_first_scalar(s + u) =~= pop_first_scalar(s) + u,
{
    lemma_first_scalar_len(s);
}

/// Validity of the first scalar is unchanged by truncating the sequence
/// anywhere past that scalar.
pub proof fn lemma_first_scalar_shrink(s: Seq<u8>, n: int)
    requires
        valid_first_scalar(s),
        length_of_first_scalar(s) <= n <= s.len(),
    ensures
        valid_first_scalar(s.take(n)),
        length_of_first_scalar(s.take(n)) == length_of_first_scalar(s),
{
    lemma_first_scalar_len(s);
}

/// Greedy decoding of `s + u` consumes the decodable prefix of `s`
/// first and then continues on `s`'s tail joined with `u`.
pub proof fn lemma_decodable_len_append(s: Seq<u8>, u: Seq<u8>)
    ensures
        decodable_len(s + u) == decodable_len(s) + decodable_len(
            s.skip(decodable_len(s) as int) + u,
        ),
    decreases s.len(),
{
    lemma_decodable_len_le(s);
    if !valid_first_scalar(s) {
        assert(s.skip(0) + u =~= s + u);
    } else {
        lemma_first_scalar_len(s);
        let w = length_of_first_scalar(s);
        lemma_first_scalar_extend(s, u);
        let rest = pop_first_scalar(s);
        lemma_decodable_len_append(rest, u);
        lemma_decodable_len_le(rest);
        assert(pop_first_scalar(s + u) =~= rest + u);
        assert(rest.skip(decodable_len(rest) as int) =~= s.skip(
            (w + decodable_len(rest)) as int,
        ));
    }
}

/// A nonempty proper prefix of a scalar's encoding is not itself a
/// valid scalar encoding, so nothing of it can be decoded yet.
pub proof fn lemma_scalar_prefix_undecodable(t: Seq<u8>)
    requires
        scalar_prefix(t),
    ensures
        decodable_len(t) == 0,
        t.len() <= 3,
{
    if t.len() > 0 {
        assert(!valid_first_scalar(t));
    }
}

/// If a valid scalar encoding begins in `t + u` but extends past the
/// end of `t`, then `t` is a proper prefix of that encoding.
pub proof fn lemma_scalar_prefix_complete(t: Seq<u8>, u: Seq<u8>)
    requires
        valid_first_scalar(t + u),
        t.len() < length_of_first_scalar(t + u),
    ensures
        scalar_prefix(t),
{
    let s = t + u;
    let w = length_of_first_scalar(s);
    lemma_first_scalar_len(s);
    if t.len() == 0 {
    } else if is_leading_byte_width_2(s[0]) {
        let c = decode_first_codepoint(s);
        assert(starts_width_2_plus(t[0])) by {
            lemma_width_2_leading_range(s[0], s[1]);
        }
    } else if is_leading_byte_width_3(s[0]) {
        assert(starts_width_3_plus(t[0]));
        if t.len() == 2 {
            assert(continues_leading(t[0], t[1])) by {
                lemma_width_3_second_range(s[0], s[1], s[2]);
            }
        }
    } else if is_leading_byte_width_4(s[0]) {
        let c = decode_first_codepoint(s);
        assert(starts_width_4(t[0]) && (t.len() < 2 || continues_leading(t[0], t[1]))) by {
            lemma_width_4_leading_range(s[0], s[1], s[2], s[3]);
        }
    }
}

/// Decoding distributes over concatenation at a character boundary.
pub proof fn lemma_decode_utf8_concat(x: Seq<u8>, y: Seq<u8>)
    requires
        valid_utf8(x),
        valid_utf8(y),
    ensures
        valid_utf8(x + y),
        decode_utf8(x + y) == decode_utf8(x) + decode_utf8(y),
    decreases x.len(),
{
    broadcast use valid_utf8_concat;

    if x.len() == 0 {
        assert(x + y =~= y);
        assert(decode_utf8(x) + decode_utf8(y) =~= decode_utf8(y));
    } else {
        lemma_first_scalar_extend(x, y);
        let rest = pop_first_scalar(x);
        lemma_decode_utf8_concat(rest, y);
        assert(pop_first_scalar(x + y) =~= rest + y);
        assert(decode_utf8(x + y) =~= decode_utf8(x) + decode_utf8(y));
    }
}

/// Splitting one delivery of channel bytes into two reads changes
/// neither the emitted bytes nor the retained tail: processing `b1`
/// and then `b2` from pending state `p` emits exactly what processing
/// `b1 + b2` at once would, provided the first read's undecodable tail
/// is still completable (as it always is on a text-safe stream).
pub proof fn lemma_split_reads(p: Seq<u8>, b1: Seq<u8>, b2: Seq<u8>)
    requires
        scalar_prefix((p + b1).skip(decodable_len(p + b1) as int)),
    ensures
        drained_text_bytes(p + b1) + drained_text_bytes(retained_tail(p + b1) + b2)
            == drained_text_bytes(p + b1 + b2),
        retained_tail(retained_tail(p + b1) + b2) == retained_tail(p + b1 + b2),
{
    let s = p + b1;
    let n = decodable_len(s) as int;
    lemma_decodable_len_le(s);
    let t = s.skip(n);
    assert(retained_tail(s) == t);
    lemma_decodable_len_append(s, b2);
    lemma_decodable_len_le(t + b2);
    let k = decodable_len(t + b2) as int;
    assert(decodable_len(s + b2) == n + k);
    assert(s + b2 =~= p + b1 + b2);
    assert(drained_text_bytes(s + b2) =~= drained_text_bytes(s) + drained_text_bytes(t + b2));
    assert((s + b2).skip(n + k) =~= (t + b2).skip(k));
}

/// On a channel that delivers one valid UTF-8 stream, a read boundary
/// anywhere inside it — even through the middle of one character's
/// encoding — is invisible: the two reads together emit the whole
/// stream, decoded identically, and leave the pending buffer empty.
pub proof fn lemma_split_reads_valid_stream(b1: Seq<u8>, b2: Seq<u8>)
    requires
        valid_utf8(b1 + b2),
    ensures
        drained_text_bytes(b1) + drained_text_bytes(retained_tail(b1) + b2) == b1 + b2,
        retained_tail(retained_tail(b1) + b2) == Seq::<u8>::empty(),
        decode_utf8(drained_text_bytes(b1)) + decode_utf8(
            drained_text_bytes(retained_tail(b1) + b2),
        ) == decode_utf8(b1 + b2),
{
    let s = b1 + b2;
    let n = decodable_len(b1) as int;
    lemma_decodable_len_le(b1);
    let t = b1.skip(n);
    assert(scalar_prefix(t)) by {
        lemma_valid_utf8_decodable(s);
        lemma_decodable_len_append(b1, b2);
        lemma_decodable_len_le(t + b2);
        lemma_valid_utf8_decodable(t + b2);
        assert(decodable_len(t + b2) == (t + b2).len());
        assert(valid_utf8(t + b2));
        if t.len() > 0 {
            assert(valid_first_scalar(t + b2));
            assert(length_of_first_scalar(t + b2) > t.len()) by {
                if length_of_first_scalar(t + b2) <= t.len() {
                    lemma_first_scalar_len(t + b2);
                    lemma_first_scalar_shrink(t + b2, t.len() as int);
                    assert((t + b2).take(t.len() as int) =~= t);
                    assert(valid_first_scalar(t));
                    assert(decodable_len(t) > 0);
                    assert(decodable_len(b1) == n + decodable_len(t)) by {
                        lemma_decodable_len_append(b1, Seq::<u8>::empty());
                        assert(b1 + Seq::<u8>::empty() =~= b1);
                        assert(t + Seq::<u8>::empty() =~= t);
                    }
                }
            }
            lemma_scalar_prefix_complete(t, b2);
        }
    }
    assert(b1 =~= Seq::<u8>::empty() + b1);
    lemma_split_reads(Seq::<u8>::empty(), b1, b2);
    assert(Seq::<u8>::empty() + b1 + b2 =~= s);
    lemma_valid_utf8_decodable(s);
    assert(drained_text_bytes(s) =~= s);
    assert(retained_tail(s) =~= Seq::<u8>::empty());
    let o1 = drained_text_bytes(b1);
    let o2 = drained_text_bytes(retained_tail(b1) + b2);
    assert(o1 + o2 == s);
    assert(decode_utf8(o1) + decode_utf8(o2) == decode_utf8(s)) by {
        lemma_drained_valid(b1);
        lemma_drained_valid(retained_tail(b1) + b2);
        lemma_decode_utf8_concat(o1, o2);
    }
}

/// In a valid two-byte encoding the leading byte is at least `0xc2`:
/// `0xc0` and `0xc1` would make the value overlong.
proof fn lemma_width_2_leading_range(b0: u8, b1: u8)
    by (bit_vector)
    requires
        0xc0 <= b0 <= 0xdf,
        0x80 <= b1 <= 0xbf,
        0x80 <= ((((b0 & 0x1f) as u32) << 6) | ((b1 & 0x3f) as u32)),
    ensures
        0xc2 <= b0,
{
}

/// In a valid three-byte encoding the second byte falls in the narrowed
/// range that rules out overlong encodings (after `0xe0`) and
/// surrogates (after `0xed`).
proof fn lemma_width_3_second_range(b0: u8, b1: u8, b2: u8)
    by (bit_vector)
    requires
        0xe0 <= b0 <= 0xef,
        0x80 <= b1 <= 0xbf,
        0x80 <= b2 <= 0xbf,
        0x800 <= ((((b0 & 0x0f) as u32) << 12) | (((b1 & 0x3f) as u32) << 6) | ((b2
            & 0x3f) as u32)),
        !(0xd800 <= ((((b0 & 0x0f) as u32) << 12) | (((b1 & 0x3f) as u32) << 6) | ((b2
            & 0x3f) as u32)) <= 0xdfff),
    ensures
        b0 == 0xe0 ==> 0xa0 <= b1 <= 0xbf,
        b0 == 0xed ==> 0x80 <= b1 <= 0x9f,
{
}

/// In a valid four-byte encoding the leading byte is at most `0xf4` and
/// the second byte falls in the narrowed range that rules out overlong
/// encodings (after `0xf0`) and values beyond the scalar range (after
/// `0xf4`).
proof fn lemma_width_4_leading_range(b0: u8, b1: u8, b2: u8, b3: u8)
    by (bit_vector)
    requires
        0xf0 <= b0 <= 0xf7,
        0x80 <= b1 <= 0xbf,
        0x80 <= b2 <= 0xbf,
        0x80 <= b3 <= 0xbf,
        0x10000 <= ((((b0 & 0x07) as u32) << 18) | (((b1 & 0x3f) as u32) << 12) | (((b2
            & 0x3f) as u32) << 6) | ((b3 & 0x3f) as u32)) <= 0x10ffff,
    ensures
        b0 <= 0xf4,
        b0 == 0xf0 ==> 0x90 <= b1 <= 0xbf,
        b0 == 0xf4 ==> 0x80 <= b1 <= 0x8f,
{
}

/// Width of the valid scalar encoding starting at position `i`, or 0
/// when no valid encoding starts there (including when the bytes run
/// out mid-encoding).
fn first_scalar_len_at(bytes: &Vec<u8>, i: usize) -> (w: usize)
    requires
        i <= bytes@.len(),
    ensures
        valid_first_scalar(bytes@.skip(i as int)) ==> w == length_of_first_scalar(
            bytes@.skip(i as int),
        ),
        !valid_first_scalar(bytes@.skip(i as int)) ==> w == 0,
{
    let ghost t = bytes@.skip(i as int);
    let n = bytes.len();
    if i >= n {
        return 0;
    }
    let b0 = bytes[i];
    assert(t[0] == b0);
    if b0 <= 0x7f {
        1
    } else if 0xc0 <= b0 && b0 <= 0xdf {
        if n - i >= 2 {
            let b1 = bytes[i + 1];
            assert(t[1] == b1);
            if 0x80 <= b1 && b1 <= 0xbf {
                let c: u32 = (((b0 & 0x1f) as u32) << 6u32) | ((b1 & 0x3f) as u32);
                if 0x80 <= c && !(0xd800 <= c && c <= 0xdfff) {
                    2
                } else {
                    0
                }
            } else {
                0
            }
        } else {
            0
        }
    } else if 0xe0 <= b0 && b0 <= 0xef {
        if n - i >= 3 {
            let b1 = bytes[i + 1];
            let b2 = bytes[i + 2];
            assert(t[1] == b1 && t[2] == b2);
            if 0x80 <= b1 && b1 <= 0xbf && 0x80 <= b2 && b2 <= 0xbf {
                let c: u32 = (((b0 & 0x0f) as u32) << 12u32) | (((b1 & 0x3f) as u32) << 6u32) | ((
                b2 & 0x3f) as u32);
                if 0x800 <= c && !(0xd800 <= c && c <= 0xdfff) {
                    3
                } else {
                    0
                }
            } else {
                0
            }
        } else {
            0
        }
    } else if 0xf0 <= b0 && b0 <= 0xf7 {
        if n - i >= 4 {
            let b1 = bytes[i + 1];
            let b2 = bytes[i + 2];
            let b3 = bytes[i + 3];
            assert(t[1] == b1 && t[2] == b2 && t[3] == b3);
            if 0x80 <= b1 && b1 <= 0xbf && 0x80 <= b2 && b2 <= 0xbf && 0x80 <= b3 && b3 <= 0xbf {
                let c: u32 = (((b0 & 0x07) as u32) << 18u32) | (((b1 & 0x3f) as u32) << 12u32) | (((
                b2 & 0x3f) as u32) << 6u32) | ((b3 & 0x3f) as u32);
                if 0x10000 <= c && c <= 0x10ffff && !(0xd800 <= c && c <= 0xdfff) {
                    4
                } else {
                    0
                }
            } else {
                0
            }
        } else {
            0
        }
    } else {
        0
    }
}

/// Length of the longest decodable prefix of `bytes`.
pub fn decodable_prefix_len(bytes: &Vec<u8>) -> (n: usize)
    ensures
        n == decodable_len(bytes@),
{
    let mut i: usize = 0;
    let mut w: usize = first_scalar_len_at(bytes, 0);
    proof {
        assert(bytes@.skip(0) =~= bytes@);
    }
    while w != 0
        invariant
            i <= bytes@.len(),
            decodable_len(bytes@) == i + decodable_len(bytes@.skip(i as int)),
            valid_first_scalar(bytes@.skip(i as int)) ==> w == length_of_first_scalar(
                bytes@.skip(i as int),
            ),
            !valid_first_scalar(bytes@.skip(i as int)) ==> w == 0,
        decreases bytes@.len() - i,
    {
        let n = bytes.len();
        proof {
            let t = bytes@.skip(i as int);
            lemma_first_scalar_len(t);
            assert(i + w <= n);
            assert(pop_first_scalar(t) =~= bytes@.skip(i + w as int));
        }
        i = i + w;
        w = first_scalar_len_at(bytes, i);
    }
    proof {
        lemma_decodable_len_le(bytes@.skip(i as int));
    }
    i
}

/// True when the whole of `t` is a proper prefix of one scalar's
/// encoding.
fn is_completable_tail(t: &Vec<u8>) -> (b: bool)
    ensures
        b == scalar_prefix(t@),
{
    let n = t.len();
    if n == 0 {
        true
    } else if n >= 4 {
        false
    } else {
        let b0 = t[0];
        let starts: bool = (0xc2 <= b0 && b0 <= 0xdf && n == 1) || (0xe0 <= b0 && b0 <= 0xef && n
            <= 2) || (0xf0 <= b0 && b0 <= 0xf4);
        if !starts {
            false
        } else if n == 1 {
            true
        } else {
            let b1 = t[1];
            let second: bool = if b0 == 0xe0 {
                0xa0 <= b1 && b1 <= 0xbf
            } else if b0 == 0xed {
                0x80 <= b1 && b1 <= 0x9f
            } else if b0 == 0xf0 {
                0x90 <= b1 && b1 <= 0xbf
            } else if b0 == 0xf4 {
                0x80 <= b1 && b1 <= 0x8f
            } else {
                0x80 <= b1 && b1 <= 0xbf
            };
            if !second {
                false
            } else if n == 2 {
                true
            } else {
                let b2 = t[2];
                0xf0 <= b0 && b0 <= 0xf4 && 0x80 <= b2 && b2 <= 0xbf
            }
        }
    }
}

/// Splits the pending buffer: returns its longest decodable prefix and
/// leaves behind the undecodable tail when that tail may still grow
/// into one complete character, or nothing otherwise.  The buffer that
/// remains is always shorter than the widest character encoding.
pub fn drain_pending(buf: &mut Vec<u8>) -> (out: Vec<u8>)
    ensures
        out@ == drained_text_bytes(old(buf)@),
        final(buf)@ == retained_tail(old(buf)@),
        valid_utf8(out@),
        final(buf)@.len() <= 3,
{
    proof {
        lemma_decodable_len_le(buf@);
        lemma_drained_valid(buf@);
    }
    let n = decodable_prefix_len(buf);
    let out = vstd::slice::slice_to_vec(vstd::slice::slice_subrange(buf.as_slice(), 0, n));
    let tail = vstd::slice::slice_to_vec(
        vstd::slice::slice_subrange(buf.as_slice(), n, buf.len()),
    );
    proof {
        assert(out@ =~= drained_text_bytes(old(buf)@));
        assert(tail@ =~= old(buf)@.skip(decodable_len(old(buf)@) as int));
    }
    if is_completable_tail(&tail) {
        proof {
            lemma_scalar_prefix_undecodable(tail@);
        }
        *buf = tail;
    } else {
        buf.clear();
    }
    out
}

/// The bytes a write puts on the channel: the UTF-8 encoding of the
/// caller's text.
pub fn encode_text(data: &str) -> (r: Vec<u8>)
    ensures
        r@ == encode_utf8(data@),
{
    vstd::slice::slice_to_vec(data.as_bytes())
}

/// Relies on `String::from_utf8`: on valid UTF-8 input it returns the
/// string holding exactly those bytes, whose characters are therefore
/// the input's UTF-8 decoding.
#[verifier::external_body]
fn string_from_valid_utf8(v: Vec<u8>) -> (r: String)
    requires
        valid_utf8(v@),
    ensures
        r@ == decode_utf8(v@),
{
    match String::from_utf8(v) {
        Ok(s) => s,
        Err(_) => String::new(),
    }
}

/// Splits the pending buffer as [`drain_pending`] does and decodes the
/// decodable prefix to text.
pub fn drain_text(buf: &mut Vec<u8>) -> (out: String)
    ensures
        out@ == decode_utf8(drained_text_bytes(old(buf)@)),
        final(buf)@ == retained_tail(old(buf)@),
        final(buf)@.len() <= 3,
{
    let bytes = drain_pending(buf);
    string_from_valid_utf8(bytes)
}

} // verus!
