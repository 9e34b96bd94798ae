//! Pure decoders for the raw CSV fields: a hex color and a comma-separated
//! coordinate list. Each decoder's contract pins both the accepted inputs and
//! the decoded value, stated over the view of the input string.

use vstd::prelude::*;

use crate::errors::IngestError;
use crate::models::Coords;

verus! {

// ---------------------------------------------------------------------------
// Digits
// ---------------------------------------------------------------------------

/// Is `c` one of `0-9a-fA-F`?
pub open spec fn is_hex_digit(c: char) -> bool {
    let u = c as u32;
    (0x30 <= u && u <= 0x39) || (0x61 <= u && u <= 0x66) || (0x41 <= u && u <= 0x46)
}

/// The numeric value of a hex digit.
pub open spec fn hex_digit_value(c: char) -> nat {
    let u = c as u32;
    if 0x30 <= u && u <= 0x39 {
        (u - 0x30) as nat
    } else if 0x61 <= u && u <= 0x66 {
        (u - 0x61 + 10) as nat
    } else if 0x41 <= u && u <= 0x46 {
        (u - 0x41 + 10) as nat
    } else {
        0
    }
}

/// Is `c` one of `0-9`?
pub open spec fn is_dec_digit(c: char) -> bool {
    0x30 <= c as u32 && c as u32 <= 0x39
}

/// The numeric value of a decimal digit.
pub open spec fn dec_digit_value(c: char) -> nat {
    (c as u32 - 0x30) as nat
}

pub open spec fn all_hex_digits(s: Seq<char>) -> bool {
    forall|i: int| 0 <= i < s.len() ==> is_hex_digit(#[trigger] s[i])
}

pub open spec fn all_dec_digits(s: Seq<char>) -> bool {
    forall|i: int| 0 <= i < s.len() ==> is_dec_digit(#[trigger] s[i])
}

/// The value of `s` read as a base-16 numeral (0 for the empty sequence).
pub open spec fn hex_value_of(s: Seq<char>) -> nat
    decreases s.len(),
{
    if s.len() == 0 {
        0
    } else {
        16 * hex_value_of(s.drop_last()) + hex_digit_value(s.last())
    }
}

/// The value of `s` read as a base-10 numeral (0 for the empty sequence).
pub open spec fn dec_value_of(s: Seq<char>) -> nat
    decreases s.len(),
{
    if s.len() == 0 {
        0
    } else {
        10 * dec_value_of(s.drop_last()) + dec_digit_value(s.last())
    }
}

/// Reading more digits never lowers the value of a numeral.
proof fn lemma_hex_value_prefix(s: Seq<char>, i: int)
    requires
        0 <= i <= s.len(),
    ensures
        hex_value_of(s.subrange(0, i)) <= hex_value_of(s),
    decreases s.len(),
{
    if i == s.len() {
        assert(s.subrange(0, i) =~= s);
    } else {
        lemma_hex_value_prefix(s.drop_last(), i);
        assert(s.drop_last().subrange(0, i) =~= s.subrange(0, i));
    }
}

/// Reading more digits never lowers the value of a numeral.
proof fn lemma_dec_value_prefix(s: Seq<char>, i: int)
    requires
        0 <= i <= s.len(),
    ensures
        dec_value_of(s.subrange(0, i)) <= dec_value_of(s),
    decreases s.len(),
{
    if i == s.len() {
        assert(s.subrange(0, i) =~= s);
    } else {
        lemma_dec_value_prefix(s.drop_last(), i);
        assert(s.drop_last().subrange(0, i) =~= s.subrange(0, i));
    }
}

// ---------------------------------------------------------------------------
// Color
// ---------------------------------------------------------------------------

/// A valid color field: a single marker character (conventionally `#`)
/// followed by hex digits that encode a 24-bit value.
pub open spec fn color_ok(s: Seq<char>) -> bool {
    &&& s.len() >= 2
    &&& all_hex_digits(s.skip(1))
    &&& hex_value_of(s.skip(1)) <= 0xFFFFFF
}

/// The decoded color of a valid color field.
pub open spec fn color_value(s: Seq<char>) -> int {
    hex_value_of(s.skip(1)) as int
}

/// Decode a `#RRGGBB`-style color field into its 24-bit value.
///
/// `position` is the ordinal of the record the field belongs to; it is only
/// carried into the error.
pub fn decode_color(s: &str, position: usize) -> (r: Result<i32, IngestError>)
    ensures
        r is Ok <==> color_ok(s@),
        r is Ok ==> r->Ok_0 as int == color_value(s@),
        r is Err ==> (r->Err_0 matches IngestError::MalformedColor { position: p, raw }
            && p == position && raw@ == s@),
{
    let n = s.unicode_len();
    if n < 2 {
        return Err(IngestError::MalformedColor { position, raw: s.to_owned() });
    }
    let mut acc: u32 = 0;
    let mut i: usize = 1;
    while i < n
        invariant
            1 <= i <= n,
            n == s@.len(),
            all_hex_digits(s@.subrange(1, i as int)),
            acc == hex_value_of(s@.subrange(1, i as int)),
            acc <= 0xFFFFFF,
        decreases n - i,
    {
        let c = s.get_char(i);
        let u = c as u32;
        let d: u32 = if 0x30 <= u && u <= 0x39 {
            u - 0x30
        } else if 0x61 <= u && u <= 0x66 {
            u - 0x61 + 10
        } else if 0x41 <= u && u <= 0x46 {
            u - 0x41 + 10
        } else {
            // A non-hex character anywhere after the marker rejects the field.
            return Err(IngestError::MalformedColor { position, raw: s.to_owned() });
        };
        proof {
            assert(s@.subrange(1, i + 1).drop_last() =~= s@.subrange(1, i as int));
            assert(s@.subrange(1, i + 1).last() == s@[i as int]);
        }
        let next = 16 * acc + d;
        if next > 0xFFFFFF {
            // The numeral already exceeds 24 bits; further digits cannot
            // bring it back down.
            proof {
                assert(s@.skip(1).subrange(0, i as int) =~= s@.subrange(1, i + 1));
                lemma_hex_value_prefix(s@.skip(1), i as int);
            }
            return Err(IngestError::MalformedColor { position, raw: s.to_owned() });
        }
        acc = next;
        i = i + 1;
    }
    proof {
        assert(s@.subrange(1, n as int) =~= s@.skip(1));
    }
    Ok(acc as i32)
}

// ---------------------------------------------------------------------------
// Signed 32-bit integers
// ---------------------------------------------------------------------------

/// The digit part of an integer token: everything after an optional single
/// leading `+` or `-`.
pub open spec fn int_token_digits(t: Seq<char>) -> Seq<char> {
    if t.len() > 0 && (t[0] == '-' || t[0] == '+') {
        t.skip(1)
    } else {
        t
    }
}

pub open spec fn int_token_negative(t: Seq<char>) -> bool {
    t.len() > 0 && t[0] == '-'
}

/// The signed value of an integer token (meaningful when its digits are
/// well-formed).
pub open spec fn int_token_value(t: Seq<char>) -> int {
    if int_token_negative(t) {
        -(dec_value_of(int_token_digits(t)) as int)
    } else {
        dec_value_of(int_token_digits(t)) as int
    }
}

/// A valid `i32` token: an optional sign, at least one digit, nothing but
/// digits, and a value within the `i32` range.
pub open spec fn int_token_ok(t: Seq<char>) -> bool {
    &&& int_token_digits(t).len() > 0
    &&& all_dec_digits(int_token_digits(t))
    &&& i32::MIN <= int_token_value(t) <= i32::MAX
}

/// Parse a decimal `i32` token, rejecting anything `str::parse::<i32>` would
/// reject: empty input, stray characters, or an out-of-range value.
pub fn parse_i32_token(s: &str) -> (r: Option<i32>)
    ensures
        r is Some <==> int_token_ok(s@),
        r is Some ==> r->0 as int == int_token_value(s@),
{
    let n = s.unicode_len();
    if n == 0 {
        return None;
    }
    let c0 = s.get_char(0);
    let neg = c0 == '-';
    let start: usize = if c0 == '-' || c0 == '+' {
        1
    } else {
        0
    };
    if start == n {
        return None;
    }
    let ghost digits = int_token_digits(s@);
    proof {
        assert(digits =~= s@.subrange(start as int, n as int));
    }
    let mut acc: u64 = 0;
    let mut i: usize = start;
    while i < n
        invariant
            start <= i <= n,
            n == s@.len(),
            digits == int_token_digits(s@),
            neg == int_token_negative(s@),
            digits =~= s@.subrange(start as int, n as int),
            all_dec_digits(digits.subrange(0, i - start)),
            acc == dec_value_of(digits.subrange(0, i - start)),
            acc <= 0x8000_0000,
        decreases n - i,
    {
        let c = s.get_char(i);
        let u = c as u32;
        if !(0x30 <= u && u <= 0x39) {
            proof {
                assert(digits[i - start] == s@[i as int]);
                assert(!is_dec_digit(digits[i - start]));
                assert(!all_dec_digits(digits));
            }
            return None;
        }
        let d: u64 = (u - 0x30) as u64;
        proof {
            assert(digits.subrange(0, i - start + 1).drop_last() =~= digits.subrange(
                0,
                i - start,
            ));
            assert(digits.subrange(0, i - start + 1).last() == s@[i as int]);
        }
        let next = 10 * acc + d;
        if next > 0x8000_0000 {
            // The magnitude already exceeds 2^31; more digits only grow it,
            // so the token cannot fit an i32 with either sign.
            proof {
                assert(dec_value_of(digits.subrange(0, i - start + 1)) == 10 * acc + d);
                lemma_dec_value_prefix(digits, i - start + 1);
                assert(dec_value_of(digits) > 0x8000_0000);
                assert(int_token_negative(s@) ==> int_token_value(s@) < i32::MIN);
                assert(!int_token_negative(s@) ==> int_token_value(s@) > i32::MAX);
            }
            return None;
        }
        acc = next;
        i = i + 1;
    }
    proof {
        assert(digits.subrange(0, n - start) =~= digits);
    }
    if neg {
        Some((-(acc as i64)) as i32)
    } else {
        if acc == 0x8000_0000 {
            // 2^31 fits only as a negative value.
            return None;
        }
        Some(acc as i32)
    }
}

// ---------------------------------------------------------------------------
// Coordinates
// ---------------------------------------------------------------------------

/// The comma-separated segments of `s`. The empty sequence has one empty
/// segment, and every comma opens a new one, so `n` commas give `n + 1`
/// segments.
pub open spec fn split_commas(s: Seq<char>) -> Seq<Seq<char>>
    decreases s.len(),
{
    if s.len() == 0 {
        seq![Seq::<char>::empty()]
    } else {
        let rest = split_commas(s.drop_last());
        if s.last() == ',' {
            rest.push(Seq::<char>::empty())
        } else {
            rest.update(rest.len() - 1, rest.last().push(s.last()))
        }
    }
}

/// The views of a sequence of strings.
pub open spec fn seg_views(v: Seq<String>) -> Seq<Seq<char>> {
    v.map_values(|x: String| x@)
}

/// A valid coordinate field: exactly two or four comma-separated `i32`
/// tokens.
pub open spec fn coords_ok(s: Seq<char>) -> bool {
    let parts = split_commas(s);
    &&& (parts.len() == 2 || parts.len() == 4)
    &&& forall|i: int| 0 <= i < parts.len() ==> int_token_ok(#[trigger] parts[i])
}

/// The decoded placement of a valid coordinate field: two tokens give a
/// point, four give a rectangle, mapped in order to `(x1, y1, x2, y2)`.
pub open spec fn coords_value(s: Seq<char>) -> Coords {
    let parts = split_commas(s);
    if parts.len() == 2 {
        Coords {
            x1: int_token_value(parts[0]) as i32,
            y1: int_token_value(parts[1]) as i32,
            x2: None,
            y2: None,
        }
    } else {
        Coords {
            x1: int_token_value(parts[0]) as i32,
            y1: int_token_value(parts[1]) as i32,
            x2: Some(int_token_value(parts[2]) as i32),
            y2: Some(int_token_value(parts[3]) as i32),
        }
    }
}

/// Decode a coordinate field: a comma-separated list of integers, two for a
/// point and four for a rectangle. Any other count, a malformed token, or an
/// out-of-range value is fatal.
///
/// `position` is the ordinal of the record the field belongs to; it is only
/// carried into the error.
pub fn decode_coordinates(s: &str, position: usize) -> (r: Result<Coords, IngestError>)
    ensures
        r is Ok <==> coords_ok(s@),
        r is Ok ==> r->Ok_0 == coords_value(s@) && r->Ok_0.paired(),
        r is Err ==> (r->Err_0 matches IngestError::MalformedCoordinates { position: p, raw }
            && p == position && raw@ == s@),
{
    let n = s.unicode_len();
    let mut done: Vec<String> = Vec::new();
    let mut cur: String = String::new();
    let mut i: usize = 0;
    proof {
        assert(s@.subrange(0, 0) =~= Seq::<char>::empty());
        assert(seg_views(done@).push(cur@) =~~= split_commas(s@.subrange(0, 0)));
    }
    while i < n
        invariant
            0 <= i <= n,
            n == s@.len(),
            seg_views(done@).push(cur@) =~~= split_commas(s@.subrange(0, i as int)),
        decreases n - i,
    {
        let c = s.get_char(i);
        proof {
            assert(s@.subrange(0, i + 1).drop_last() =~= s@.subrange(0, i as int));
            assert(s@.subrange(0, i + 1).last() == s@[i as int]);
        }
        if c == ',' {
            let ghost old_done = done@;
            let ghost old_cur = cur@;
            done.push(cur);
            cur = String::new();
            proof {
                assert(seg_views(old_done.push(done@[old_done.len() as int])) =~~= seg_views(
                    old_done,
                ).push(old_cur));
                assert(seg_views(done@).push(cur@) =~~= split_commas(s@.subrange(0, i + 1)));
            }
        } else {
            let piece = s.substring_char(i, i + 1);
            proof {
                assert(piece@ =~= seq![s@[i as int]]);
            }
            cur.append(piece);
            proof {
                let rest = split_commas(s@.subrange(0, i as int));
                assert(rest.update(rest.len() - 1, rest.last().push(s@[i as int])) =~~= seg_views(
                    done@,
                ).push(cur@));
            }
        }
        i = i + 1;
    }
    proof {
        assert(s@.subrange(0, n as int) =~= s@);
    }
    let ghost old_done = done@;
    let ghost old_cur = cur@;
    done.push(cur);
    proof {
        assert(seg_views(done@) =~~= seg_views(old_done).push(old_cur));
        assert(seg_views(done@) =~~= split_commas(s@));
    }
    let count = done.len();
    if !(count == 2 || count == 4) {
        return Err(IngestError::MalformedCoordinates { position, raw: s.to_owned() });
    }
    let mut vals: Vec<i32> = Vec::new();
    let mut k: usize = 0;
    while k < count
        invariant
            0 <= k <= count,
            count == done@.len(),
            count == 2 || count == 4,
            seg_views(done@) =~~= split_commas(s@),
            vals@.len() == k,
            forall|j: int| 0 <= j < k ==> int_token_ok(#[trigger] split_commas(s@)[j]),
            forall|j: int|
                0 <= j < k ==> #[trigger] vals@[j] as int == int_token_value(split_commas(s@)[j]),
        decreases count - k,
    {
        match parse_i32_token(done[k].as_str()) {
            Some(v) => {
                proof {
                    assert(seg_views(done@)[k as int] == done@[k as int]@);
                }
                vals.push(v);
            },
            None => {
                proof {
                    assert(seg_views(done@)[k as int] == done@[k as int]@);
                    assert(!int_token_ok(split_commas(s@)[k as int]));
                }
                return Err(IngestError::MalformedCoordinates { position, raw: s.to_owned() });
            },
        }
        k = k + 1;
    }
    if count == 2 {
        Ok(Coords { x1: vals[0], y1: vals[1], x2: None, y2: None })
    } else {
        Ok(Coords { x1: vals[0], y1: vals[1], x2: Some(vals[2]), y2: Some(vals[3]) })
    }
}

} // verus!
