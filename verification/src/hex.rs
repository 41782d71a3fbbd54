//! Hexadecimal text handling: converting hex characters and tokens to byte
//! values, splitting a text into whitespace-separated tokens, and rendering
//! numbers back as zero-padded lowercase hex.

use vstd::arithmetic::div_mod::{lemma_fundamental_div_mod_converse, lemma_small_mod};
use vstd::prelude::*;

verus! {

/// The numeric value of a hex character: `'0'`-`'9'` map to 0-9, `'a'`-`'f'`
/// map to 10-15, and every other character maps to 0.
pub open spec fn hex_char_val(c: char) -> u8 {
    let u = c as u32;
    if 97 <= u <= 102 {
        (u - 87) as u8
    } else if 48 <= u <= 57 {
        (u - 48) as u8
    } else {
        0
    }
}

/// A character that denotes a hex digit: a decimal digit or a lowercase
/// letter `'a'`-`'f'`.
pub open spec fn is_hex_char(c: char) -> bool {
    let u = c as u32;
    (48 <= u <= 57) || (97 <= u <= 102)
}

/// The lowercase hex digit character for a value below 16 (and `'0'` for
/// anything else).
pub open spec fn hex_digit(d: nat) -> char {
    if d == 1 {
        '1'
    } else if d == 2 {
        '2'
    } else if d == 3 {
        '3'
    } else if d == 4 {
        '4'
    } else if d == 5 {
        '5'
    } else if d == 6 {
        '6'
    } else if d == 7 {
        '7'
    } else if d == 8 {
        '8'
    } else if d == 9 {
        '9'
    } else if d == 10 {
        'a'
    } else if d == 11 {
        'b'
    } else if d == 12 {
        'c'
    } else if d == 13 {
        'd'
    } else if d == 14 {
        'e'
    } else if d == 15 {
        'f'
    } else {
        '0'
    }
}

/// The rendering of `v` in lowercase hex, zero-padded on the left to at
/// least `width` digits; values too large for `width` take as many digits as
/// they need, as `format!("{:0width$x}", v)` would print them.
pub open spec fn spec_hex(v: nat, width: nat) -> Seq<char>
    decreases v, width,
{
    if v < 16 && width <= 1 {
        seq![hex_digit(v)]
    } else {
        spec_hex(v / 16, if width == 0 {
            0
        } else {
            (width - 1) as nat
        }) + seq![hex_digit(v % 16)]
    }
}

/// The byte value of a hex token, read left to right by positional
/// weighting through `hex_char_val`, wrapping modulo 256 when the token
/// holds more digits than fit in 8 bits.
pub open spec fn token_val(s: Seq<char>) -> u8
    decreases s.len(),
{
    if s.len() == 0 {
        0
    } else {
        ((token_val(s.drop_last()) * 16 + hex_char_val(s.last())) % 256) as u8
    }
}

/// Convert a hex character into a number.
///
/// Any character other than a decimal digit or `'a'`-`'f'` yields 0.
pub fn c_to_hex(c: char) -> (r: u8)
    ensures
        r == hex_char_val(c),
{
    let u = c as u32;
    if 97 <= u && u <= 102 {
        (u - 87) as u8
    } else if 48 <= u && u <= 57 {
        (u - 48) as u8
    } else {
        0
    }
}

/// The one-character string for a hex digit value below 16.
fn hex_digit_str(d: u8) -> (r: &'static str)
    requires
        d < 16,
    ensures
        r@ == seq![hex_digit(d as nat)],
{
    proof {
        reveal_strlit("0");
        reveal_strlit("1");
        reveal_strlit("2");
        reveal_strlit("3");
        reveal_strlit("4");
        reveal_strlit("5");
        reveal_strlit("6");
        reveal_strlit("7");
        reveal_strlit("8");
        reveal_strlit("9");
        reveal_strlit("a");
        reveal_strlit("b");
        reveal_strlit("c");
        reveal_strlit("d");
        reveal_strlit("e");
        reveal_strlit("f");
    }
    match d {
        0 => "0",
        1 => "1",
        2 => "2",
        3 => "3",
        4 => "4",
        5 => "5",
        6 => "6",
        7 => "7",
        8 => "8",
        9 => "9",
        10 => "a",
        11 => "b",
        12 => "c",
        13 => "d",
        14 => "e",
        _ => "f",
    }
}

/// Render `v` in lowercase hex, zero-padded to at least `width` digits, as
/// `format!("{:0width$x}", v)` would.
pub fn hex_str(v: u64, width: usize) -> (r: String)
    ensures
        r@ == spec_hex(v as nat, width as nat),
    decreases v, width,
{
    if v < 16 && width <= 1 {
        String::from_str(hex_digit_str(v as u8))
    } else {
        let mut r = hex_str(v / 16, if width == 0 {
            0
        } else {
            width - 1
        });
        r.append(hex_digit_str((v % 16) as u8));
        r
    }
}

/// Convert a sequence of hex characters into a number.
///
/// Uses the same character conversion as `c_to_hex`; a token longer than
/// two characters wraps modulo 256.
pub fn to_hex(s: &str) -> (r: u8)
    ensures
        r == token_val(s@),
{
    let l = s.unicode_len();
    let mut ret: u8 = 0;
    let mut j: usize = 0;
    while j < l
        invariant
            l == s@.len(),
            j <= l,
            ret == token_val(s@.take(j as int)),
        decreases l - j,
    {
        let c = s.get_char(j);
        ret = (((ret as u32) * 16 + (c_to_hex(c) as u32)) % 256) as u8;
        proof {
            assert(s@.take(j + 1).drop_last() =~= s@.take(j as int));
            assert(s@.take(j + 1).last() == s@[j as int]);
        }
        j += 1;
    }
    proof {
        assert(s@.take(l as int) =~= s@);
    }
    ret
}

/// A Unicode whitespace character, the separator between hex tokens: the
/// characters with the White_Space property, as `char::is_whitespace`
/// recognises them.
pub open spec fn is_space(c: char) -> bool {
    let u = c as u32;
    (9 <= u <= 13) || u == 32 || u == 0x85 || u == 0xa0 || u == 0x1680 || (0x2000 <= u <= 0x200a)
        || u == 0x2028 || u == 0x2029 || u == 0x202f || u == 0x205f || u == 0x3000
}

/// Whether `c` separates hex tokens, i.e. is Unicode whitespace.
pub fn is_space_char(c: char) -> (r: bool)
    ensures
        r == is_space(c),
{
    let u = c as u32;
    (9 <= u && u <= 13) || u == 32 || u == 0x85 || u == 0xa0 || u == 0x1680 || (0x2000 <= u
        && u <= 0x200a) || u == 0x2028 || u == 0x2029 || u == 0x202f || u == 0x205f || u == 0x3000
}

/// The whitespace-separated tokens of `s` from position `i` on, given the
/// start of the token currently being scanned, if one is open: a left-to-right
/// scan that closes a token at each whitespace character and opens one at each
/// non-whitespace character.
pub open spec fn split_tokens_from(s: Seq<char>, i: int, start: Option<int>) -> Seq<Seq<char>>
    decreases s.len() - i,
{
    if i >= s.len() {
        match start {
            Option::None => Seq::empty(),
            Option::Some(st) => seq![s.subrange(st, i)],
        }
    } else if is_space(s[i]) {
        match start {
            Option::None => split_tokens_from(s, i + 1, Option::None),
            Option::Some(st) => seq![s.subrange(st, i)] + split_tokens_from(s, i + 1, Option::None),
        }
    } else {
        match start {
            Option::None => split_tokens_from(s, i + 1, Option::Some(i)),
            Option::Some(st) => split_tokens_from(s, i + 1, start),
        }
    }
}

/// The maximal runs of non-whitespace characters of `s`, in order.
pub open spec fn split_tokens(s: Seq<char>) -> Seq<Seq<char>> {
    split_tokens_from(s, 0, Option::None)
}

/// The byte value of each token, in order.
pub open spec fn token_vals(ts: Seq<Seq<char>>) -> Seq<u8> {
    ts.map_values(|t: Seq<char>| token_val(t))
}

/// The byte stream denoted by a hex text: each whitespace-separated token
/// converted to its byte value.
pub open spec fn bytes_of_text(s: Seq<char>) -> Seq<u8> {
    token_vals(split_tokens(s))
}

/// Convert a text of whitespace-separated hex tokens to the bytes the
/// tokens denote, in order.
pub fn get_bytes(s: String) -> (r: Vec<u8>)
    ensures
        r@ == bytes_of_text(s@),
{
    let st = s.as_str();
    let l = st.unicode_len();
    let mut out: Vec<u8> = Vec::new();
    let mut tok_start: Option<usize> = Option::None;
    let mut i: usize = 0;
    while i < l
        invariant
            l == s@.len(),
            i <= l,
            st@ == s@,
            match tok_start {
                Option::None => out@ + token_vals(
                    split_tokens_from(s@, i as int, Option::None),
                ) == bytes_of_text(s@),
                Option::Some(ts) => ts <= i && out@ + token_vals(
                    split_tokens_from(s@, i as int, Option::Some(ts as int)),
                ) == bytes_of_text(s@),
            },
        decreases l - i,
    {
        let c = st.get_char(i);
        if is_space_char(c) {
            match tok_start {
                Option::Some(ts) => {
                    let t = st.substring_char(ts, i);
                    let b = to_hex(t);
                    proof {
                        let rest = split_tokens_from(s@, i + 1, Option::None);
                        assert(token_vals(seq![s@.subrange(ts as int, i as int)] + rest) =~= seq![b]
                            + token_vals(rest));
                        assert(out@ + (seq![b] + token_vals(rest)) =~= (out@ + seq![b])
                            + token_vals(rest));
                        assert(out@.push(b) =~= out@ + seq![b]);
                    }
                    out.push(b);
                    tok_start = Option::None;
                },
                Option::None => {},
            }
        } else {
            match tok_start {
                Option::None => {
                    tok_start = Option::Some(i);
                },
                Option::Some(_) => {},
            }
        }
        i += 1;
    }
    match tok_start {
        Option::Some(ts) => {
            let t = st.substring_char(ts, l);
            let b = to_hex(t);
            proof {
                assert(token_vals(seq![s@.subrange(ts as int, l as int)]) =~= seq![b]);
                assert(out@.push(b) =~= out@ + seq![b]);
            }
            out.push(b);
        },
        Option::None => {},
    }
    out
}

/// Every character of a hex rendering is a hex digit character, and the
/// rendering is never empty.
pub proof fn lemma_spec_hex_chars(v: nat, w: nat)
    ensures
        spec_hex(v, w).len() >= 1,
        forall|j: int| 0 <= j < spec_hex(v, w).len() ==> is_hex_char(#[trigger] spec_hex(v, w)[j]),
    decreases v, w,
{
    if !(v < 16 && w <= 1) {
        lemma_spec_hex_chars(
            v / 16,
            if w == 0 {
                0
            } else {
                (w - 1) as nat
            },
        );
    }
}

/// A hex digit character comes back unchanged when its value is rendered
/// again as a digit.
pub proof fn lemma_hex_digit_round_trip(c: char)
    requires
        is_hex_char(c),
    ensures
        hex_char_val(c) < 16,
        hex_digit(hex_char_val(c) as nat) == c,
{
}

/// Decoding a valid two-character hex token and re-encoding the resulting
/// byte as two hex digits yields the original token.
pub proof fn lemma_hex_round_trip(t: Seq<char>)
    requires
        t.len() == 2,
        is_hex_char(t[0]),
        is_hex_char(t[1]),
    ensures
        spec_hex(token_val(t) as nat, 2) == t,
{
    let v0 = hex_char_val(t[0]);
    let v1 = hex_char_val(t[1]);
    lemma_hex_digit_round_trip(t[0]);
    lemma_hex_digit_round_trip(t[1]);
    assert(t.drop_last() =~= seq![t[0]]);
    assert(seq![t[0]].drop_last() =~= Seq::<char>::empty());
    assert(token_val(Seq::<char>::empty()) == 0);
    lemma_small_mod(v0 as nat, 256);
    assert(token_val(seq![t[0]]) == v0);
    let v = token_val(t);
    lemma_small_mod((v0 * 16 + v1) as nat, 256);
    assert(v == v0 * 16 + v1);
    lemma_fundamental_div_mod_converse(v as int, 16, v0 as int, v1 as int);
    assert(spec_hex(v as nat, 2) == spec_hex(v0 as nat, 1) + seq![hex_digit(v1 as nat)]);
    assert(spec_hex(v as nat, 2) =~= t);
}

} // verus!
