//! Removal of terminal escape sequences from captured output.
//!
//! Children that believe they are on a terminal emit ANSI escape sequences
//! (colour codes, window titles, ...). The log viewer wants plain text, so
//! each captured line is stripped of CSI sequences (`ESC [` parameters and a
//! final byte in `@..~`), OSC sequences (`ESC ]` up to BEL or `ESC \`), and
//! other two-byte escapes.

use vstd::prelude::*;
use vstd::utf8::*;
use vstd::string::StringSliceAdditionalSpecFns;

verus! {

pub const ESC: u8 = 0x1b;

pub const BEL: u8 = 0x07;

/// A byte that ends a CSI sequence.
pub open spec fn is_csi_final(b: u8) -> bool {
    0x40 <= b <= 0x7e
}

/// The position of the final byte of a CSI sequence whose parameters start
/// at `j`, or the end of the input when it has none.
pub open spec fn csi_final(b: Seq<u8>, j: int) -> int
    decreases b.len() - j,
{
    if j >= b.len() {
        b.len() as int
    } else if is_csi_final(b[j]) {
        j
    } else {
        csi_final(b, j + 1)
    }
}

/// The position just past the terminator (BEL, or ESC followed by `\`) of an
/// OSC sequence whose payload starts at `j`, or the end of the input.
pub open spec fn osc_end(b: Seq<u8>, j: int) -> int
    decreases b.len() - j,
{
    if j >= b.len() {
        b.len() as int
    } else if b[j] == BEL {
        j + 1
    } else if b[j] == ESC && j + 1 < b.len() && b[j + 1] == 0x5c {
        j + 2
    } else {
        osc_end(b, j + 1)
    }
}

/// The position just past the escape sequence that starts with the ESC at `i`.
pub open spec fn escape_end(b: Seq<u8>, i: int) -> int {
    if i + 1 >= b.len() {
        b.len() as int
    } else if b[i + 1] == 0x5b {
        let k = csi_final(b, i + 2);
        if k < b.len() {
            k + 1
        } else {
            b.len() as int
        }
    } else if b[i + 1] == 0x5d {
        osc_end(b, i + 2)
    } else {
        i + 2
    }
}

proof fn lemma_csi_final_bounds(b: Seq<u8>, j: int)
    requires
        0 <= j,
    ensures
        j <= csi_final(b, j) <= b.len() || (j > b.len() && csi_final(b, j) == b.len()),
        csi_final(b, j) < b.len() ==> is_csi_final(b[csi_final(b, j)]),
    decreases b.len() - j,
{
    if j < b.len() && !is_csi_final(b[j]) {
        lemma_csi_final_bounds(b, j + 1);
    }
}

proof fn lemma_osc_end_bounds(b: Seq<u8>, j: int)
    requires
        0 <= j,
    ensures
        j <= osc_end(b, j) <= b.len() || (j > b.len() && osc_end(b, j) == b.len()),
        osc_end(b, j) > j || j >= b.len(),
    decreases b.len() - j,
{
    if j < b.len() && b[j] != BEL && !(b[j] == ESC && j + 1 < b.len() && b[j + 1] == 0x5c) {
        lemma_osc_end_bounds(b, j + 1);
    }
}

proof fn lemma_escape_end_advances(b: Seq<u8>, i: int)
    requires
        0 <= i < b.len(),
    ensures
        i < escape_end(b, i) <= b.len(),
{
    if i + 1 < b.len() {
        lemma_csi_final_bounds(b, i + 2);
        lemma_osc_end_bounds(b, i + 2);
    }
}

/// The bytes of `b` from position `i` on, with every escape sequence removed.
pub open spec fn stripped_from(b: Seq<u8>, i: int) -> Seq<u8>
    decreases b.len() - i,
{
    if i < 0 || i >= b.len() {
        Seq::empty()
    } else if b[i] == ESC {
        let e = escape_end(b, i);
        if i < e <= b.len() {
            stripped_from(b, e)
        } else {
            Seq::empty()
        }
    } else {
        seq![b[i]] + stripped_from(b, i + 1)
    }
}

/// The bytes of `b` with every escape sequence removed.
pub open spec fn stripped(b: Seq<u8>) -> Seq<u8> {
    stripped_from(b, 0)
}

/// What `String::from_utf8_lossy` decodes from `b`: the characters `b`
/// encodes, with each invalid sequence replaced by U+FFFD.
pub uninterp spec fn utf8_lossy(b: Seq<u8>) -> Seq<char>;

/// Decodes bytes as UTF-8, replacing invalid sequences.
///
/// Calls `String::from_utf8_lossy` and takes an owned copy. Its result is a
/// function of the bytes alone, named `utf8_lossy`; as its documentation says,
/// bytes that are valid UTF-8 decode to exactly the characters they encode,
/// and each invalid sequence becomes U+FFFD. So every character of the result
/// is U+FFFD or decoded from valid bytes, and an ASCII character, which UTF-8
/// encodes as that one byte, appears only where that byte was in the input.
#[verifier::external_body]
fn decode_lossy(b: &[u8]) -> (s: String)
    ensures
        s@ == utf8_lossy(b@),
        valid_utf8(b@) ==> s@ == decode_utf8(b@),
        forall|i: int|
            0 <= i < s@.len() && (#[trigger] s@[i] as u32) < 0x80 ==> b@.contains(s@[i] as u32 as u8),
{
    String::from_utf8_lossy(b).into_owned()
}

/// Removes escape sequences from a byte string.
pub fn strip_ansi_bytes(bytes: &[u8]) -> (out: Vec<u8>)
    ensures
        out@ == stripped(bytes@),
{
    let n = bytes.len();
    let mut out: Vec<u8> = Vec::new();
    let mut i: usize = 0;
    while i < n
        invariant
            n == bytes@.len(),
            i <= n,
            out@ + stripped_from(bytes@, i as int) == stripped(bytes@),
        decreases n - i,
    {
        let ghost b = bytes@;
        let ghost i0 = i as int;
        let c = bytes[i];
        if c == ESC {
            proof {
                lemma_escape_end_advances(b, i0);
            }
            i = i + 1;
            if i >= n {
            } else if bytes[i] == 0x5b {
                i = i + 1;
                while i < n && !(0x40 <= bytes[i] && bytes[i] <= 0x7e)
                    invariant
                        n == b.len(),
                        bytes@ == b,
                        i0 + 2 <= i <= n,
                        csi_final(b, i0 + 2) == csi_final(b, i as int),
                    decreases n - i,
                {
                    i = i + 1;
                }
                if i < n {
                    i = i + 1;
                }
            } else if bytes[i] == 0x5d {
                i = i + 1;
                loop
                    invariant_except_break
                        osc_end(b, i0 + 2) == osc_end(b, i as int),
                    invariant
                        n == b.len(),
                        bytes@ == b,
                        i0 + 2 <= i <= n,
                    ensures
                        i == osc_end(b, i0 + 2),
                    decreases n - i,
                {
                    if i >= n {
                        break;
                    }
                    if bytes[i] == BEL {
                        i = i + 1;
                        break;
                    }
                    if bytes[i] == ESC && i + 1 < n && bytes[i + 1] == 0x5c {
                        i = i + 2;
                        break;
                    }
                    i = i + 1;
                }
            } else {
                i = i + 1;
            }
            assert(i as int == escape_end(b, i0));
        } else {
            out.push(c);
            i = i + 1;
            proof {
                assert(stripped_from(b, i0) == seq![c] + stripped_from(b, i as int));
                assert(out@ + stripped_from(b, i as int) =~= (out@.drop_last() + seq![c])
                    + stripped_from(b, i as int));
            }
        }
    }
    proof {
        assert(stripped_from(bytes@, i as int) =~= Seq::<u8>::empty());
    }
    out
}

/// Strips ANSI escape sequences (CSI/SGR colour codes, OSC, and simple
/// two-byte escapes) from a line of captured output.
pub fn strip_ansi(input: &str) -> (r: String)
    ensures
        strip_ansi_result(input@, r@),
{
    let bytes = input.as_bytes();
    let out = strip_ansi_bytes(bytes);
    let r = decode_lossy(out.as_slice());
    proof {
        lemma_stripped_has_no_escape(bytes@, 0);
        assert forall|i: int| 0 <= i < r@.len() implies r@[i] as u32 != 0x1b by {
            if r@[i] as u32 == 0x1b {
                assert(out@.contains(r@[i] as u32 as u8));
                let k = choose|k: int| 0 <= k < out@.len() && out@[k] == r@[i] as u32 as u8;
                assert(out@[k] == ESC);
            }
        }
    }
    r
}

/// What `strip_ansi` gives for `input`: the stripped bytes decoded, exactly
/// where they are valid UTF-8 and with U+FFFD for invalid sequences
/// otherwise; in either case no ESC character is left.
pub open spec fn strip_ansi_result(input: Seq<char>, r: Seq<char>) -> bool {
    let b = stripped(encode_utf8(input));
    &&& r == utf8_lossy(b)
    &&& valid_utf8(b) ==> r == decode_utf8(b)
    &&& forall|i: int| 0 <= i < r.len() ==> r[i] as u32 != 0x1b
}

/// Stripping a stripped line again gives it back unchanged.
pub proof fn lemma_strip_ansi_idempotent(input: Seq<char>, once: Seq<char>, twice: Seq<char>)
    requires
        strip_ansi_result(input, once),
        strip_ansi_result(once, twice),
    ensures
        twice == once,
{
    lemma_plain_text_passes_through(once);
}

/// Stripping leaves no ESC byte behind: every escape sequence is removed whole.
pub proof fn lemma_stripped_has_no_escape(b: Seq<u8>, i: int)
    requires
        0 <= i,
    ensures
        forall|k: int| 0 <= k < stripped_from(b, i).len() ==> stripped_from(b, i)[k] != ESC,
    decreases b.len() - i,
{
    if i < b.len() {
        if b[i] == ESC {
            let e = escape_end(b, i);
            if i < e <= b.len() {
                lemma_stripped_has_no_escape(b, e);
                assert(stripped_from(b, i) == stripped_from(b, e));
            }
        } else {
            lemma_stripped_has_no_escape(b, i + 1);
            let rest = stripped_from(b, i + 1);
            assert forall|k: int| 0 <= k < stripped_from(b, i).len() implies stripped_from(b, i)[k] != ESC by {
                assert(stripped_from(b, i) == seq![b[i]] + rest);
                if k > 0 {
                    assert(stripped_from(b, i)[k] == rest[k - 1]);
                } else {
                    assert(stripped_from(b, i)[k] == b[i]);
                }
            }
        }
    }
}

/// Bytes without ESC are returned unchanged.
pub proof fn lemma_stripped_without_escape(b: Seq<u8>, i: int)
    requires
        0 <= i <= b.len(),
        forall|k: int| i <= k < b.len() ==> b[k] != ESC,
    ensures
        stripped_from(b, i) == b.subrange(i, b.len() as int),
    decreases b.len() - i,
{
    if i < b.len() {
        lemma_stripped_without_escape(b, i + 1);
        assert(seq![b[i]] + b.subrange(i + 1, b.len() as int) =~= b.subrange(i, b.len() as int));
    } else {
        assert(b.subrange(i, b.len() as int) =~= Seq::<u8>::empty());
    }
}

/// Stripping is idempotent: a second pass changes nothing.
pub proof fn lemma_strip_idempotent(b: Seq<u8>)
    ensures
        stripped(stripped(b)) == stripped(b),
{
    lemma_stripped_has_no_escape(b, 0);
    lemma_stripped_without_escape(stripped(b), 0);
    assert(stripped(b).subrange(0, stripped(b).len() as int) =~= stripped(b));
}

proof fn lemma_scalar_encoding_avoids_escape(v: u32)
    requires
        is_scalar(v),
        v != 0x1b,
    ensures
        forall|k: int| 0 <= k < encode_scalar(v).len() ==> encode_scalar(v)[k] != ESC,
{
    if has_width_1_encoding(v) {
        assert((v & 0x7F) as u8 != 0x1b) by (bit_vector)
            requires
                v <= 0x7F,
                v != 0x1b,
        ;
    } else {
        assert(0x80 | (v & 0x3F) as u8 != 0x1b) by (bit_vector);
        assert(0x80 | ((v >> 6) & 0x3F) as u8 != 0x1b) by (bit_vector);
        assert(0x80 | ((v >> 12) & 0x3F) as u8 != 0x1b) by (bit_vector);
        assert(0xC0 | ((v >> 6) & 0x1F) as u8 != 0x1b) by (bit_vector);
        assert(0xE0 | ((v >> 12) & 0x0F) as u8 != 0x1b) by (bit_vector);
        assert(0xF0 | ((v >> 18) & 0x7) as u8 != 0x1b) by (bit_vector);
    }
}

proof fn lemma_encoding_avoids_escape(s: Seq<char>)
    requires
        forall|i: int| 0 <= i < s.len() ==> s[i] as u32 != 0x1b,
    ensures
        forall|k: int| 0 <= k < encode_utf8(s).len() ==> encode_utf8(s)[k] != ESC,
    decreases s.len(),
{
    if s.len() > 0 {
        char_is_scalar(s[0]);
        lemma_scalar_encoding_avoids_escape(s[0] as u32);
        lemma_encoding_avoids_escape(s.drop_first());
        let head = encode_scalar(s[0] as u32);
        let tail = encode_utf8(s.drop_first());
        assert forall|k: int| 0 <= k < encode_utf8(s).len() implies encode_utf8(s)[k] != ESC by {
            if k < head.len() {
                assert(encode_utf8(s)[k] == head[k]);
            } else {
                assert(encode_utf8(s)[k] == tail[k - head.len()]);
            }
        }
    }
}

/// Text without an ESC character passes through `strip_ansi` unchanged: its
/// bytes are left as they are, stay valid UTF-8, and decode to the same text.
pub proof fn lemma_plain_text_passes_through(s: Seq<char>)
    requires
        forall|i: int| 0 <= i < s.len() ==> s[i] as u32 != 0x1b,
    ensures
        stripped(encode_utf8(s)) == encode_utf8(s),
        valid_utf8(stripped(encode_utf8(s))),
        decode_utf8(stripped(encode_utf8(s))) == s,
{
    let b = encode_utf8(s);
    lemma_encoding_avoids_escape(s);
    lemma_stripped_without_escape(b, 0);
    assert(b.subrange(0, b.len() as int) =~= b);
    encode_utf8_valid_utf8(s);
    encode_utf8_decode_utf8(s);
}


/// Whether each ESC byte of `b` is its last byte or is followed by an ASCII
/// byte, as it is in every escape sequence a terminal program writes.
pub open spec fn escapes_ascii_led(b: Seq<u8>) -> bool {
    forall|k: int| 0 <= k < b.len() - 1 && #[trigger] b[k] == ESC ==> b[k + 1] < 0x80
}

proof fn lemma_csi_final_shift(b: Seq<u8>, d: int, j: int)
    requires
        0 <= d <= j,
        d <= b.len(),
    ensures
        csi_final(b, j) == csi_final(b.skip(d), j - d) + d,
    decreases b.len() - j,
{
    if j < b.len() {
        assert(b.skip(d)[j - d] == b[j]);
        if !is_csi_final(b[j]) {
            lemma_csi_final_shift(b, d, j + 1);
        }
    }
}

proof fn lemma_osc_end_shift(b: Seq<u8>, d: int, j: int)
    requires
        0 <= d <= j,
        d <= b.len(),
    ensures
        osc_end(b, j) == osc_end(b.skip(d), j - d) + d,
    decreases b.len() - j,
{
    if j < b.len() {
        assert(b.skip(d)[j - d] == b[j]);
        if j + 1 < b.len() {
            assert(b.skip(d)[j + 1 - d] == b[j + 1]);
        }
        if !(b[j] == BEL) && !(b[j] == ESC && j + 1 < b.len() && b[j + 1] == 0x5c) {
            lemma_osc_end_shift(b, d, j + 1);
        }
    }
}

/// Where stripping resumes does not depend on the bytes before it.
proof fn lemma_stripped_from_shift(b: Seq<u8>, d: int, i: int)
    requires
        0 <= d <= i,
        d <= b.len(),
    ensures
        stripped_from(b, i) == stripped_from(b.skip(d), i - d),
    decreases b.len() - i,
{
    let t = b.skip(d);
    if i < b.len() {
        assert(t[i - d] == b[i]);
        if i + 1 < b.len() {
            assert(t[i + 1 - d] == b[i + 1]);
        }
        if b[i] == ESC {
            lemma_csi_final_shift(b, d, i + 2);
            lemma_osc_end_shift(b, d, i + 2);
            lemma_escape_end_advances(b, i);
            let e = escape_end(b, i);
            assert(escape_end(t, i - d) == e - d);
            lemma_stripped_from_shift(b, d, e);
        } else {
            lemma_stripped_from_shift(b, d, i + 1);
        }
    }
}

/// A run of bytes without ESC is copied as it is.
proof fn lemma_stripped_plain_run(b: Seq<u8>, i: int, j: int)
    requires
        0 <= i <= j <= b.len(),
        forall|k: int| i <= k < j ==> b[k] != ESC,
    ensures
        stripped_from(b, i) == b.subrange(i, j) + stripped_from(b, j),
    decreases j - i,
{
    if i < j {
        lemma_stripped_plain_run(b, i + 1, j);
        assert(seq![b[i]] + (b.subrange(i + 1, j) + stripped_from(b, j)) =~= b.subrange(i, j)
            + stripped_from(b, j));
    } else {
        assert(b.subrange(i, j) =~= Seq::<u8>::empty());
        assert(Seq::<u8>::empty() + stripped_from(b, j) =~= stripped_from(b, j));
    }
}

/// The end of an OSC sequence is the end of the input or comes right after
/// an ASCII byte (BEL or the `\` of the string terminator).
proof fn lemma_osc_end_after_ascii(b: Seq<u8>, j: int)
    requires
        0 <= j,
    ensures
        osc_end(b, j) >= b.len() || (osc_end(b, j) >= 1 && b[osc_end(b, j) - 1] < 0x80),
    decreases b.len() - j,
{
    if j < b.len() && !(b[j] == BEL) && !(b[j] == ESC && j + 1 < b.len() && b[j + 1] == 0x5c) {
        lemma_osc_end_after_ascii(b, j + 1);
    }
}

/// The first scalar of valid UTF-8 is one ASCII byte, or bytes of which
/// none is ASCII.
proof fn lemma_first_scalar_bytes(u: Seq<u8>)
    requires
        u.len() > 0,
        valid_utf8(u),
    ensures
        1 <= length_of_first_scalar(u) <= u.len(),
        length_of_first_scalar(u) == 1 <==> u[0] < 0x80,
        forall|k: int| 1 <= k < length_of_first_scalar(u) ==> u[k] >= 0x80,
        length_of_first_scalar(u) > 1 ==> u[0] >= 0x80,
        pop_first_scalar(u) == u.skip(length_of_first_scalar(u)),
        valid_utf8(pop_first_scalar(u)),
        valid_utf8(u.take(length_of_first_scalar(u))),
{
    let w = length_of_first_scalar(u);
    let head = u.take(w);
    assert(head.len() == w);
    assert forall|k: int| 0 <= k < w implies head[k] == u[k] by {}
    assert(valid_first_scalar(head));
    assert(pop_first_scalar(head) =~= Seq::<u8>::empty());
    reveal_with_fuel(valid_utf8, 2);
    assert(valid_utf8(head));
    assert(u.subrange(w, u.len() as int) =~= u.skip(w));
}

/// In valid UTF-8 the bytes after an ASCII byte are valid UTF-8 too.
proof fn lemma_valid_after_ascii(u: Seq<u8>, j: int)
    requires
        valid_utf8(u),
        0 <= j < u.len(),
        u[j] < 0x80,
    ensures
        valid_utf8(u.skip(j + 1)),
    decreases u.len(),
{
    lemma_first_scalar_bytes(u);
    let w = length_of_first_scalar(u);
    let rest = u.skip(w);
    if j < w {
        assert(j == 0);
        assert(w == 1);
    } else {
        assert(rest[j - w] == u[j]);
        lemma_valid_after_ascii(rest, j - w);
        assert(rest.skip(j - w + 1) =~= u.skip(j + 1));
    }
}

/// Removing escape sequences from valid UTF-8 whose ESC bytes are each
/// followed by an ASCII byte leaves valid UTF-8: only whole characters are
/// removed.
proof fn lemma_stripped_valid(t: Seq<u8>)
    requires
        valid_utf8(t),
        escapes_ascii_led(t),
    ensures
        valid_utf8(stripped(t)),
    decreases t.len(),
{
    if t.len() > 0 {
        lemma_first_scalar_bytes(t);
        if t[0] != ESC {
            let w = length_of_first_scalar(t);
            let rest = t.skip(w);
            assert forall|k: int| 0 <= k < w implies t[k] != ESC by {}
            lemma_stripped_plain_run(t, 0, w);
            lemma_stripped_from_shift(t, w, w);
            assert(t.subrange(0, w) =~= t.take(w));
            assert forall|k: int| 0 <= k < rest.len() - 1 && #[trigger] rest[k] == ESC implies rest[k + 1] < 0x80 by {
                assert(rest[k] == t[k + w]);
                assert(rest[k + 1] == t[k + 1 + w]);
            }
            lemma_stripped_valid(rest);
            valid_utf8_concat(t.take(w), stripped(rest));
        } else {
            lemma_escape_end_advances(t, 0);
            let e = escape_end(t, 0);
            let rest = t.skip(e);
            if e < t.len() {
                if t[1] == 0x5b {
                    lemma_csi_final_bounds(t, 2);
                    lemma_valid_after_ascii(t, e - 1);
                } else if t[1] == 0x5d {
                    lemma_osc_end_after_ascii(t, 2);
                    lemma_valid_after_ascii(t, e - 1);
                } else {
                    assert(t[1] < 0x80);
                    lemma_valid_after_ascii(t, 1);
                }
            } else {
                assert(rest =~= Seq::<u8>::empty());
            }
            lemma_stripped_from_shift(t, e, e);
            assert forall|k: int| 0 <= k < rest.len() - 1 && #[trigger] rest[k] == ESC implies rest[k + 1] < 0x80 by {
                assert(rest[k] == t[k + e]);
                assert(rest[k + 1] == t[k + 1 + e]);
            }
            lemma_stripped_valid(rest);
        }
    }
}

/// `strip_ansi` loses nothing of the text it keeps: when each ESC in the
/// input is followed by an ASCII byte (true of the colour, cursor and title
/// sequences terminals use), the stripped bytes are valid UTF-8, so the
/// result decodes them exactly, with no replacement character.
pub proof fn lemma_strip_keeps_text_intact(s: Seq<char>)
    requires
        escapes_ascii_led(encode_utf8(s)),
    ensures
        valid_utf8(stripped(encode_utf8(s))),
{
    encode_utf8_valid_utf8(s);
    lemma_stripped_valid(encode_utf8(s));
}

proof fn lemma_csi_params_skipped(b: Seq<u8>, end: int, j: int)
    requires
        2 <= j <= end < b.len(),
        forall|k: int| j <= k < end ==> !(0x40 <= #[trigger] b[k] <= 0x7e),
        0x40 <= b[end] <= 0x7e,
    ensures
        csi_final(b, j) == end,
    decreases end - j,
{
    if j < end {
        lemma_csi_final_skip_one(b, j);
        lemma_csi_params_skipped(b, end, j + 1);
    }
}

proof fn lemma_csi_final_skip_one(b: Seq<u8>, j: int)
    requires
        0 <= j < b.len(),
        !(0x40 <= b[j] <= 0x7e),
    ensures
        csi_final(b, j) == csi_final(b, j + 1),
{
}

/// A CSI sequence ends at its first byte in `0x40..=0x7e` (`@`, `A`-`Z`,
/// `[\]^_` and the backquote, `a`-`z`, `{|}~`): `ESC [`, parameter bytes
/// outside that range, and such a final byte are removed together, and
/// the text after them, when it holds no ESC, is kept exactly. So
/// `"\x1b[2KDone"` strips to `"Done"` and `"\x1b[H" + t` to `t`.
pub proof fn lemma_csi_sequence_removed(params: Seq<u8>, f: u8, text: Seq<u8>)
    requires
        forall|k: int| 0 <= k < params.len() ==> !(0x40 <= #[trigger] params[k] <= 0x7e),
        0x40 <= f <= 0x7e,
        forall|k: int| 0 <= k < text.len() ==> #[trigger] text[k] != 0x1b,
    ensures
        stripped(seq![0x1bu8, 0x5bu8] + params + seq![f] + text) == text,
{
    let b = seq![0x1bu8, 0x5bu8] + params + seq![f] + text;
    let end: int = params.len() as int + 2;
    assert forall|k: int| 2 <= k < end implies !(0x40 <= #[trigger] b[k] <= 0x7e) by {
        assert(b[k] == params[k - 2]);
    }
    assert(b[end] == f);
    lemma_csi_params_skipped(b, end, 2);
    assert(escape_end(b, 0) == end + 1);
    assert forall|k: int| end + 1 <= k < b.len() implies b[k] != ESC by {
        assert(b[k] == text[k - end - 1]);
    }
    lemma_stripped_without_escape(b, end + 1);
    assert(b.subrange(end + 1, b.len() as int) =~= text);
}

} // verus!
