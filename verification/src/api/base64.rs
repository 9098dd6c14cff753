//! Minimal standard-alphabet base64 decoder (RFC 4648) used for binary
//! payloads that Juggler returns as base64 text (screenshots, response
//! bodies).

use vstd::prelude::*;
use vstd::string::StringSliceAdditionalSpecFns;

verus! {

/// The padding character `=`.
pub const PAD: u8 = 61;

/// Whitespace that the decoder skips: `\n`, `\r` and space.
pub open spec fn is_b64_whitespace(b: u8) -> bool {
    b == 10 || b == 13 || b == 32
}

/// Whether `b` belongs to the standard base64 alphabet `A-Z a-z 0-9 + /`.
pub open spec fn is_b64_char(b: u8) -> bool {
    (65 <= b <= 90) || (97 <= b <= 122) || (48 <= b <= 57) || b == 43 || b == 47
}

/// The 6-bit value of an alphabet character.
pub open spec fn b64_value(b: u8) -> u8
    recommends
        is_b64_char(b),
{
    if 65 <= b <= 90 {
        (b - 65) as u8
    } else if 97 <= b <= 122 {
        (b - 71) as u8
    } else if 48 <= b <= 57 {
        (b + 4) as u8
    } else if b == 43 {
        62
    } else {
        63
    }
}

/// The 6-bit groups that the text `s` carries: the alphabet values of the
/// characters before the first `=`, whitespace skipped. `Err(b)` names the
/// first byte before the first `=` that is neither whitespace nor in the
/// alphabet.
pub open spec fn sextets(s: Seq<u8>) -> Result<Seq<u8>, u8>
    decreases s.len(),
{
    if s.len() == 0 {
        Ok(seq![])
    } else if is_b64_whitespace(s[0]) {
        sextets(s.drop_first())
    } else if s[0] == PAD {
        Ok(seq![])
    } else if !is_b64_char(s[0]) {
        Err(s[0])
    } else {
        match sextets(s.drop_first()) {
            Ok(rest) => Ok(seq![b64_value(s[0])] + rest),
            Err(b) => Err(b),
        }
    }
}

/// Number of whole bytes that `n` sextets encode: `floor(6n / 8)`.
pub open spec fn decoded_len(n: int) -> int {
    3 * n / 4
}

/// Byte `k` of the decoding of the sextets `v`: every group of four sextets
/// `a b c d` gives the three bytes `a<<2 | b>>4`, `(b&15)<<4 | c>>2` and
/// `(c&3)<<6 | d`; a trailing partial group gives its leading whole bytes.
pub open spec fn decoded_byte(v: Seq<u8>, k: int) -> u8 {
    let g = k / 3;
    if k % 3 == 0 {
        ((v[4 * g] << 2u8) | (v[4 * g + 1] >> 4u8)) as u8
    } else if k % 3 == 1 {
        (((v[4 * g + 1] & 15u8) << 4u8) | (v[4 * g + 2] >> 2u8)) as u8
    } else {
        (((v[4 * g + 2] & 3u8) << 6u8) | v[4 * g + 3]) as u8
    }
}

/// The bytes that the sextets `v` encode.
pub open spec fn decoded_bytes(v: Seq<u8>) -> Seq<u8> {
    Seq::new(decoded_len(v.len() as int) as nat, |k: int| decoded_byte(v, k))
}

/// What decoding the text whose UTF-8 bytes are `s` gives: the decoded
/// bytes, or the error message that names the offending character.
pub open spec fn decode_base64_result(s: Seq<u8>) -> Result<Seq<u8>, Seq<char>> {
    match sextets(s) {
        Ok(v) => Ok(decoded_bytes(v)),
        Err(b) => Err(invalid_char_message(b)),
    }
}

/// The message of the error for the offending byte `b`.
pub open spec fn invalid_char_message(b: u8) -> Seq<char> {
    "invalid base64 character: "@ + char_debug_model(b as char)
}

/// What `Debug` prints for the character `c`: a printable ASCII character
/// other than the quote and the backslash between single quotes; any other
/// character as std escapes it.
pub open spec fn char_debug_model(c: char) -> Seq<char> {
    if 32 <= c as u32 <= 126 && c != '\'' && c != '\\' {
        seq!['\'', c, '\'']
    } else {
        char_debug_text(c)
    }
}

/// The text that `Debug` formatting prints for the character `c`
/// (quoted and escaped, such as `'!'`).
pub uninterp spec fn char_debug_text(c: char) -> Seq<char>;

/// Formats `c` with `{:?}`, std's `Debug` for `char`: a printable ASCII
/// character other than `'` and `\` comes out between single quotes as it
/// is; what std does with the others is left to the name `char_debug_text`.
#[verifier::external_body]
fn char_debug(c: char) -> (text: String)
    ensures
        32 <= c as u32 <= 126 && c != '\'' && c != '\\' ==> text@ == seq!['\'', c, '\''],
        !(32 <= c as u32 <= 126 && c != '\'' && c != '\\') ==> text@ == char_debug_text(c),
{
    format!("{:?}", c)
}

/// `b64_value` for bytes, with the decoder's two markers: `-1` for a byte
/// outside the alphabet and `-2` for padding.
fn b64_lookup(b: u8) -> (v: i8)
    ensures
        b == PAD ==> v == -2,
        b != PAD && !is_b64_char(b) ==> v == -1,
        is_b64_char(b) ==> v == b64_value(b) && 0 <= v < 64,
{
    if 65 <= b && b <= 90 {
        (b - 65) as i8
    } else if 97 <= b && b <= 122 {
        (b - 71) as i8
    } else if 48 <= b && b <= 57 {
        (b + 4) as i8
    } else if b == 43 {
        62
    } else if b == 47 {
        63
    } else if b == PAD {
        -2
    } else {
        -1
    }
}

/// `sextets` of a suffix, seen from the prefix already consumed.
pub open spec fn after_prefix(done: Seq<u8>, rest: Result<Seq<u8>, u8>) -> Result<Seq<u8>, u8> {
    match rest {
        Ok(v) => Ok(done + v),
        Err(b) => Err(b),
    }
}

proof fn lemma_sextets_step(s: Seq<u8>, i: int)
    requires
        0 <= i < s.len(),
    ensures
        s.skip(i).drop_first() == s.skip(i + 1),
        sextets(s.skip(i)) == (if is_b64_whitespace(s[i]) {
            sextets(s.skip(i + 1))
        } else if s[i] == PAD {
            Ok(seq![])
        } else if !is_b64_char(s[i]) {
            Err(s[i])
        } else {
            match sextets(s.skip(i + 1)) {
                Ok(rest) => Ok(seq![b64_value(s[i])] + rest),
                Err(b) => Err(b),
            }
        }),
{
    assert(s.skip(i).drop_first() =~= s.skip(i + 1));
    assert(s.skip(i)[0] == s[i]);
}

/// Bytes below position `decoded_len(n)` depend only on the first `n` sextets.
proof fn lemma_decoded_prefix(v: Seq<u8>, x: u8, k: int)
    requires
        0 <= k < decoded_len(v.len() as int),
    ensures
        decoded_byte(v.push(x), k) == decoded_byte(v, k),
{
    let g = k / 3;
    let n = v.len() as int;
    assert((k % 3 == 0 ==> 4 * g + 1 < n) && (k % 3 == 1 ==> 4 * g + 2 < n) && (k % 3 == 2 ==> 4
        * g + 3 < n)) by (nonlinear_arith)
        requires
            0 <= k,
            k < 3 * n / 4,
            g == k / 3,
    ;
}

/// Decode a base64-encoded string into raw bytes.
///
/// Supports the standard base64 alphabet (RFC 4648) with optional padding:
/// `\n`, `\r` and spaces are skipped, decoding stops at the first `=`, and a
/// trailing partial group yields its whole bytes.
pub fn decode_base64(input: &str) -> (result: Result<Vec<u8>, String>)
    ensures
        match decode_base64_result(input.spec_bytes()) {
            Ok(bytes) => result matches Ok(out) && out@ == bytes,
            Err(msg) => result matches Err(e) && e@ == msg,
        },
{
    let bytes = input.as_bytes();
    let ghost s = bytes@;
    let mut output: Vec<u8> = Vec::new();
    let mut buf: u32 = 0;
    let mut bits: u32 = 0;
    let ghost mut acc: Seq<u8> = seq![];
    let mut i: usize = 0;
    proof {
        assert(s.skip(0) =~= s);
    }
    while i < bytes.len()
        invariant
            0 <= i <= s.len(),
            bytes@ == s,
            s == input.spec_bytes(),
            sextets(s) == after_prefix(acc, sextets(s.skip(i as int))),
            forall|j: int| 0 <= j < acc.len() ==> acc[j] < 64,
            output@ == decoded_bytes(acc),
            acc.len() % 4 == 0 ==> bits == 0 && buf == 0,
            acc.len() % 4 == 1 ==> bits == 6 && buf == acc.last(),
            acc.len() % 4 == 2 ==> bits == 4 && buf == acc.last() & 15u8,
            acc.len() % 4 == 3 ==> bits == 2 && buf == acc.last() & 3u8,
        ensures
            i == s.len() || sextets(s.skip(i as int)) == Ok::<Seq<u8>, u8>(seq![]),
        decreases s.len() - i,
    {
        let b = bytes[i];
        proof {
            lemma_sextets_step(s, i as int);
        }
        if b == 10 || b == 13 || b == 32 {
            i = i + 1;
            continue;
        }
        let val = b64_lookup(b);
        if val == -2 {
            break;
        }
        if val == -1 {
            let mut msg = "invalid base64 character: ".to_owned();
            let text = char_debug(b as char);
            msg.append(text.as_str());
            proof {
                reveal_strlit("invalid base64 character: ");
                assert(sextets(s.skip(i as int)) == Err::<Seq<u8>, u8>(b));
                assert(sextets(s) == Err::<Seq<u8>, u8>(b));
                assert(msg@ == invalid_char_message(b));
            }
            return Err(msg);
        }
        let v = val as u32;
        let ghost old_acc = acc;
        let ghost old_out = output@;
        proof {
            acc = acc.push(val as u8);
            assert(acc.drop_last() == old_acc);
        }
        let ghost n: int = old_acc.len() as int;
        if bits == 0 {
            buf = v;
            bits = 6;
            proof {
                assert(decoded_len(acc.len() as int) == decoded_len(n)) by (nonlinear_arith)
                    requires
                        n % 4 == 0,
                        acc.len() == n + 1,
                ;
                assert forall|k: int| 0 <= k < decoded_len(n) implies decoded_byte(acc, k)
                    == decoded_byte(old_acc, k) by {
                    lemma_decoded_prefix(old_acc, val as u8, k);
                }
                assert(output@ =~= decoded_bytes(acc));
            }
        } else {
            let ghost prev = buf;
            buf = (buf << 6) | v;
            bits = bits + 6 - 8;
            assert((1u32 << bits) >= 1) by (bit_vector)
                requires
                    bits < 32,
            ;
            let byte = (buf >> bits) as u8;
            output.push(byte);
            buf = buf & ((1u32 << bits) - 1);
            proof {
                let q: int = n / 4;
                assert(n == 4 * q + n % 4);
                assert(decoded_len(n) == 3 * q + (if n % 4 == 1 {
                    0int
                } else if n % 4 == 2 {
                    1int
                } else {
                    2int
                })) by (nonlinear_arith)
                    requires
                        n == 4 * q + n % 4,
                        0 < n % 4 < 4,
                ;
                assert(decoded_len(acc.len() as int) == decoded_len(n) + 1) by (nonlinear_arith)
                    requires
                        n == 4 * q + n % 4,
                        0 < n % 4 < 4,
                        acc.len() == n + 1,
                ;
                let k = decoded_len(n) as int;
                assert(k / 3 == q && k % 3 == n % 4 - 1) by (nonlinear_arith)
                    requires
                        n == 4 * q + n % 4,
                        0 < n % 4 < 4,
                        k == 3 * q + n % 4 - 1,
                ;
                assert(acc[n as int] == val as u8);
                let x = val as u8;
                if n % 4 == 1 {
                    let a = old_acc[4 * q];
                    assert(prev == a && a < 64 && x < 64);
                    assert(byte == ((a << 2u8) | (x >> 4u8)) as u8 && buf == (x & 15u8)) by (bit_vector)
                        requires
                            prev == a as u32,
                            v == x as u32,
                            a < 64,
                            x < 64,
                            bits == 4,
                            byte == ((((prev << 6) | v) >> bits) as u8),
                            buf == ((prev << 6) | v) & (((1u32 << bits) - 1) as u32),
                    ;
                } else if n % 4 == 2 {
                    let b1 = old_acc[4 * q + 1];
                    assert(prev == b1 & 15u8 && b1 < 64 && x < 64);
                    assert(byte == (((b1 & 15u8) << 4u8) | (x >> 2u8)) as u8 && buf == (x & 3u8))
                        by (bit_vector)
                        requires
                            prev == (b1 & 15u8) as u32,
                            v == x as u32,
                            b1 < 64,
                            x < 64,
                            bits == 2,
                            byte == ((((prev << 6) | v) >> bits) as u8),
                            buf == ((prev << 6) | v) & (((1u32 << bits) - 1) as u32),
                    ;
                } else {
                    let c = old_acc[4 * q + 2];
                    assert(prev == c & 3u8 && c < 64 && x < 64);
                    assert(byte == (((c & 3u8) << 6u8) | x) as u8 && buf == 0) by (bit_vector)
                        requires
                            prev == (c & 3u8) as u32,
                            v == x as u32,
                            c < 64,
                            x < 64,
                            bits == 0,
                            byte == ((((prev << 6) | v) >> bits) as u8),
                            buf == ((prev << 6) | v) & (((1u32 << bits) - 1) as u32),
                    ;
                }
                assert(decoded_byte(acc, k) == byte);
                assert forall|j: int| 0 <= j < decoded_len(n) implies decoded_byte(acc, j)
                    == decoded_byte(old_acc, j) by {
                    lemma_decoded_prefix(old_acc, x, j);
                }
                assert(output@ =~= decoded_bytes(acc));
            }
        }
        i = i + 1;
        proof {
            assert(old_acc + seq![val as u8] =~= acc);
            match sextets(s.skip(i as int)) {
                Ok(rest) => {
                    assert(old_acc + (seq![val as u8] + rest) =~= acc + rest);
                },
                Err(_) => {},
            }
        }
    }
    proof {
        if i == s.len() {
            assert(s.skip(i as int) =~= Seq::<u8>::empty());
        }
        assert(acc + Seq::<u8>::empty() =~= acc);
    }
    Ok(output)
}

// ---------------------------------------------------------------------------
// Decoding undoes encoding
// ---------------------------------------------------------------------------

/// The alphabet character of the 6-bit value `v`.
pub open spec fn b64_char(v: u8) -> u8 {
    if v < 26 {
        (65 + v) as u8
    } else if v < 52 {
        (71 + v) as u8
    } else if v < 62 {
        (v - 4) as u8
    } else if v == 62 {
        43
    } else {
        47
    }
}

/// Sextet `j` of the encoding of `b`: each group of three bytes gives four
/// sextets, a last group of one or two bytes gives two or three, the missing
/// bits being zero.
pub open spec fn encoded_sextet(b: Seq<u8>, j: int) -> u8 {
    let g = j / 4;
    let b0 = b[3 * g];
    let b1: u8 = if 3 * g + 1 < b.len() {
        b[3 * g + 1]
    } else {
        0
    };
    let b2: u8 = if 3 * g + 2 < b.len() {
        b[3 * g + 2]
    } else {
        0
    };
    if j % 4 == 0 {
        b0 >> 2u8
    } else if j % 4 == 1 {
        ((b0 & 3u8) << 4u8) | (b1 >> 4u8)
    } else if j % 4 == 2 {
        ((b1 & 15u8) << 2u8) | (b2 >> 6u8)
    } else {
        b2 & 63u8
    }
}

/// How many sextets encode `n` bytes: `ceil(8n / 6)`.
pub open spec fn encoded_len(n: int) -> int {
    (4 * n + 2) / 3
}

/// The sextets that encode the bytes `b`.
pub open spec fn encoded_sextets(b: Seq<u8>) -> Seq<u8> {
    Seq::new(encoded_len(b.len() as int) as nat, |j: int| encoded_sextet(b, j))
}

/// The standard base64 text of the bytes `b` (RFC 4648), with the `=`
/// padding up to a multiple of four characters when `padded`.
pub open spec fn base64_text(b: Seq<u8>, padded: bool) -> Seq<u8> {
    let chars = encoded_sextets(b).map_values(|v: u8| b64_char(v));
    if padded && b.len() % 3 == 1 {
        chars + seq![PAD, PAD]
    } else if padded && b.len() % 3 == 2 {
        chars + seq![PAD]
    } else {
        chars
    }
}

proof fn lemma_b64_char(v: u8)
    requires
        v < 64,
    ensures
        is_b64_char(b64_char(v)),
        !is_b64_whitespace(b64_char(v)),
        b64_char(v) != PAD,
        b64_value(b64_char(v)) == v,
{
}

/// The sextets of a text made of alphabet characters, maybe followed by
/// padding, are their values.
proof fn lemma_sextets_of_chars(v: Seq<u8>, pad: Seq<u8>)
    requires
        forall|i: int| 0 <= i < v.len() ==> v[i] < 64,
        pad.len() == 0 || pad[0] == PAD,
    ensures
        sextets(v.map_values(|x: u8| b64_char(x)) + pad) == Ok::<Seq<u8>, u8>(v),
    decreases v.len(),
{
    let t = v.map_values(|x: u8| b64_char(x)) + pad;
    if v.len() == 0 {
        assert(t =~= pad);
        if pad.len() > 0 {
            assert(!is_b64_whitespace(PAD));
        }
        assert(sextets(t) == Ok::<Seq<u8>, u8>(v)) by {
            assert(v =~= seq![]);
        }
    } else {
        let rest = v.drop_first();
        lemma_b64_char(v[0]);
        assert(t[0] == b64_char(v[0]));
        assert(t.drop_first() =~= rest.map_values(|x: u8| b64_char(x)) + pad);
        lemma_sextets_of_chars(rest, pad);
        assert(seq![v[0]] + rest =~= v);
    }
}

proof fn lemma_group_bytes(b0: u8, b1: u8, b2: u8)
    by (bit_vector)
    ensures
        (((b0 >> 2u8) << 2u8) | ((((b0 & 3u8) << 4u8) | (b1 >> 4u8)) >> 4u8)) as u8 == b0,
        ((((((b0 & 3u8) << 4u8) | (b1 >> 4u8)) & 15u8) << 4u8) | ((((b1 & 15u8) << 2u8) | (b2
            >> 6u8)) >> 2u8)) as u8 == b1,
        ((((((b1 & 15u8) << 2u8) | (b2 >> 6u8)) & 3u8) << 6u8) | (b2 & 63u8)) as u8 == b2,
        b0 >> 2u8 < 64,
        (((b0 & 3u8) << 4u8) | (b1 >> 4u8)) < 64,
        (((b1 & 15u8) << 2u8) | (b2 >> 6u8)) < 64,
        b2 & 63u8 < 64,
{
}

/// Decoding undoes encoding: the base64 text of any bytes, padded or not,
/// decodes to those bytes.
pub proof fn law_decode_undoes_encode(b: Seq<u8>, padded: bool)
    ensures
        decode_base64_result(base64_text(b, padded)) == Ok::<Seq<u8>, Seq<char>>(b),
{
    let v = encoded_sextets(b);
    let n = b.len() as int;
    assert forall|j: int| 0 <= j < v.len() implies v[j] < 64 by {
        let g = j / 4;
        assert(0 <= 3 * g < n) by (nonlinear_arith)
            requires
                0 <= j < (4 * n + 2) / 3,
                g == j / 4,
        ;
        let b1: u8 = if 3 * g + 1 < n { b[3 * g + 1] } else { 0 };
        let b2: u8 = if 3 * g + 2 < n { b[3 * g + 2] } else { 0 };
        lemma_group_bytes(b[3 * g], b1, b2);
    }
    let pad: Seq<u8> = if padded && n % 3 == 1 {
        seq![PAD, PAD]
    } else if padded && n % 3 == 2 {
        seq![PAD]
    } else {
        seq![]
    };
    assert(base64_text(b, padded) =~= v.map_values(|x: u8| b64_char(x)) + pad);
    lemma_sextets_of_chars(v, pad);
    let m = v.len() as int;
    assert(decoded_len(m) == n) by (nonlinear_arith)
        requires
            m == (4 * n + 2) / 3,
            n >= 0,
    ;
    assert forall|k: int| 0 <= k < n implies decoded_byte(v, k) == b[k] by {
        let g = k / 3;
        assert(3 * g <= k < 3 * g + 3 && 4 * g + 1 < m && (k % 3 >= 1 ==> 4 * g + 2 < m) && (
        k % 3 == 2 ==> 4 * g + 3 < m) && k % 3 == k - 3 * g) by (nonlinear_arith)
            requires
                0 <= k < n,
                g == k / 3,
                m == (4 * n + 2) / 3,
        ;
        assert((4 * g) / 4 == g && (4 * g + 1) / 4 == g && (4 * g + 2) / 4 == g && (4 * g + 3) / 4
            == g) by (nonlinear_arith)
            requires
                g >= 0,
        ;
        let b1: u8 = if 3 * g + 1 < n { b[3 * g + 1] } else { 0 };
        let b2: u8 = if 3 * g + 2 < n { b[3 * g + 2] } else { 0 };
        lemma_group_bytes(b[3 * g], b1, b2);
    }
    assert(decoded_bytes(v) =~= b);
}

// ---------------------------------------------------------------------------
// Whitespace is skipped
// ---------------------------------------------------------------------------

proof fn lemma_sextets_insert_whitespace(s: Seq<u8>, i: int, w: u8)
    requires
        0 <= i <= s.len(),
        is_b64_whitespace(w),
    ensures
        sextets(s.insert(i, w)) == sextets(s),
    decreases s.len(),
{
    let t = s.insert(i, w);
    if i == 0 {
        assert(t.drop_first() =~= s);
    } else {
        assert(t[0] == s[0]);
        assert(t.drop_first() =~= s.drop_first().insert(i - 1, w));
        lemma_sextets_insert_whitespace(s.drop_first(), i - 1, w);
    }
}

/// Whitespace does not change what a text decodes to: inserting a newline,
/// a carriage return or a space anywhere in the text gives the same bytes,
/// or the same error (so does inserting any number of them, one at a time).
pub proof fn law_whitespace_is_skipped(s: Seq<u8>, i: int, w: u8)
    requires
        0 <= i <= s.len(),
        is_b64_whitespace(w),
    ensures
        decode_base64_result(s.insert(i, w)) == decode_base64_result(s),
{
    lemma_sextets_insert_whitespace(s, i, w);
}

} // verus!
