//! JSON lexing and value skipping over UTF-8 bytes.
//!
//! The notification envelope arrives as the JSON body of a text frame. This
//! module holds the grammar-level building blocks: whitespace and number
//! lexing, string decoding (including escape sequences), and a pushdown
//! skipper for arbitrary JSON values, so that unknown fields of the envelope
//! can be passed over. Each executable function is proved to agree with the
//! specification-level grammar function of the same shape.

use vstd::prelude::*;
use crate::config::is_digit;

verus! {

/// JSON insignificant whitespace: space, tab, line feed, carriage return.
pub open spec fn is_ws(b: u8) -> bool {
    b == 32 || b == 9 || b == 10 || b == 13
}

/// First position at or after `i` holding a byte that is not whitespace.
pub open spec fn spec_skip_ws(s: Seq<u8>, i: int) -> int
    decreases s.len() - i,
{
    if 0 <= i && i < s.len() && is_ws(s[i]) {
        spec_skip_ws(s, i + 1)
    } else {
        i
    }
}

pub proof fn lemma_skip_ws(s: Seq<u8>, i: int)
    requires
        0 <= i <= s.len(),
    ensures
        i <= spec_skip_ws(s, i) <= s.len(),
        spec_skip_ws(s, i) < s.len() ==> !is_ws(s[spec_skip_ws(s, i)]),
    decreases s.len() - i,
{
    if i < s.len() && is_ws(s[i]) {
        lemma_skip_ws(s, i + 1);
    }
}

pub fn skip_ws(s: &[u8], i: usize) -> (r: usize)
    requires
        i <= s@.len(),
    ensures
        r == spec_skip_ws(s@, i as int),
        i <= r <= s@.len(),
        r < s@.len() ==> !is_ws(s@[r as int]),
{
    let mut j: usize = i;
    while j < s.len() && (s[j] == 32 || s[j] == 9 || s[j] == 10 || s[j] == 13)
        invariant
            i <= j <= s@.len(),
            spec_skip_ws(s@, i as int) == spec_skip_ws(s@, j as int),
        decreases s@.len() - j,
    {
        j = j + 1;
    }
    proof {
        lemma_skip_ws(s@, j as int);
    }
    j
}

/// ASCII hexadecimal digit.
pub open spec fn is_hex(b: u8) -> bool {
    is_digit(b) || (97 <= b && b <= 102) || (65 <= b && b <= 70)
}

/// Numeric value of a hexadecimal digit.
pub open spec fn hex_val(b: u8) -> int {
    if is_digit(b) {
        b - 48
    } else if 97 <= b && b <= 102 {
        b - 87
    } else {
        b - 55
    }
}

/// Value of the four hexadecimal digits at `i`, when they are there.
pub open spec fn spec_hex4(s: Seq<u8>, i: int) -> Option<int> {
    if 0 <= i && i + 4 <= s.len() && is_hex(s[i]) && is_hex(s[i + 1]) && is_hex(s[i + 2])
        && is_hex(s[i + 3]) {
        Some(hex_val(s[i]) * 0x1000 + hex_val(s[i + 1]) * 0x100 + hex_val(s[i + 2]) * 16 + hex_val(
            s[i + 3],
        ))
    } else {
        None
    }
}

fn hex_digit(b: u8) -> (r: Option<u8>)
    ensures
        match r {
            Some(v) => is_hex(b) && v == hex_val(b) && v < 16,
            None => !is_hex(b),
        },
{
    if 48 <= b && b <= 57 {
        Some(b - 48)
    } else if 97 <= b && b <= 102 {
        Some(b - 87)
    } else if 65 <= b && b <= 70 {
        Some(b - 55)
    } else {
        None
    }
}

fn parse_hex4(s: &[u8], i: usize) -> (r: Option<u32>)
    requires
        i <= s@.len(),
    ensures
        match r {
            Some(v) => spec_hex4(s@, i as int) == Some(v as int) && v < 0x10000 && i + 4
                <= s@.len(),
            None => spec_hex4(s@, i as int) is None,
        },
{
    if s.len() - i < 4 {
        return None;
    }
    let h0 = hex_digit(s[i]);
    let h1 = hex_digit(s[i + 1]);
    let h2 = hex_digit(s[i + 2]);
    let h3 = hex_digit(s[i + 3]);
    match (h0, h1, h2, h3) {
        (Some(a), Some(b), Some(c), Some(d)) => Some(
            (a as u32) * 0x1000 + (b as u32) * 0x100 + (c as u32) * 16 + (d as u32),
        ),
        _ => None,
    }
}

/// UTF-8 encoding of a Unicode scalar value.
pub open spec fn utf8_enc(c: int) -> Seq<u8> {
    if c < 0x80 {
        seq![c as u8]
    } else if c < 0x800 {
        seq![(0xC0 + c / 0x40) as u8, (0x80 + c % 0x40) as u8]
    } else if c < 0x10000 {
        seq![
            (0xE0 + c / 0x1000) as u8,
            (0x80 + (c / 0x40) % 0x40) as u8,
            (0x80 + c % 0x40) as u8,
        ]
    } else {
        seq![
            (0xF0 + c / 0x40000) as u8,
            (0x80 + (c / 0x1000) % 0x40) as u8,
            (0x80 + (c / 0x40) % 0x40) as u8,
            (0x80 + c % 0x40) as u8,
        ]
    }
}

fn encode_utf8(c: u32) -> (v: Vec<u8>)
    requires
        c < 0x110000,
    ensures
        v@ == utf8_enc(c as int),
{
    if c < 0x80 {
        let v: Vec<u8> = vec![c as u8];
        assert(v@ =~= utf8_enc(c as int));
        v
    } else if c < 0x800 {
        assert(c / 0x40 < 0x20 && c % 0x40 < 0x40) by (nonlinear_arith)
            requires c < 0x800;
        let v: Vec<u8> = vec![(0xC0 + c / 0x40) as u8, (0x80 + c % 0x40) as u8];
        assert(v@ =~= utf8_enc(c as int));
        v
    } else if c < 0x10000 {
        assert(c / 0x1000 < 0x10 && (c / 0x40) % 0x40 < 0x40 && c % 0x40 < 0x40)
            by (nonlinear_arith)
            requires c < 0x10000;
        let v: Vec<u8> = vec![
            (0xE0 + c / 0x1000) as u8,
            (0x80 + (c / 0x40) % 0x40) as u8,
            (0x80 + c % 0x40) as u8,
        ];
        assert(v@ =~= utf8_enc(c as int));
        v
    } else {
        assert(c / 0x40000 < 8 && (c / 0x1000) % 0x40 < 0x40 && (c / 0x40) % 0x40 < 0x40 && c
            % 0x40 < 0x40) by (nonlinear_arith)
            requires c < 0x110000;
        let v: Vec<u8> = vec![
            (0xF0 + c / 0x40000) as u8,
            (0x80 + (c / 0x1000) % 0x40) as u8,
            (0x80 + (c / 0x40) % 0x40) as u8,
            (0x80 + c % 0x40) as u8,
        ];
        assert(v@ =~= utf8_enc(c as int));
        v
    }
}

/// Decoded bytes and end position of one escape sequence; `i` stands just
/// after the backslash. Unicode escapes cover the basic plane directly and
/// supplementary characters as a surrogate pair; an unpaired surrogate is
/// rejected.
pub open spec fn spec_escape(s: Seq<u8>, i: int) -> Option<(Seq<u8>, int)> {
    if !(0 <= i && i < s.len()) {
        None
    } else {
        let b = s[i];
        if b == 34 {
            Some((seq![34u8], i + 1))
        } else if b == 92 {
            Some((seq![92u8], i + 1))
        } else if b == 47 {
            Some((seq![47u8], i + 1))
        } else if b == 98 {
            Some((seq![8u8], i + 1))
        } else if b == 102 {
            Some((seq![12u8], i + 1))
        } else if b == 110 {
            Some((seq![10u8], i + 1))
        } else if b == 114 {
            Some((seq![13u8], i + 1))
        } else if b == 116 {
            Some((seq![9u8], i + 1))
        } else if b == 117 {
            spec_unicode_escape(s, i + 1)
        } else {
            None
        }
    }
}

pub open spec fn spec_unicode_escape(s: Seq<u8>, i: int) -> Option<(Seq<u8>, int)> {
    match spec_hex4(s, i) {
        None => None,
        Some(n1) => if n1 < 0xD800 || n1 >= 0xE000 {
            Some((utf8_enc(n1), i + 4))
        } else if n1 < 0xDC00 {
            if i + 6 <= s.len() && s[i + 4] == 92 && s[i + 5] == 117 {
                match spec_hex4(s, i + 6) {
                    None => None,
                    Some(n2) => if 0xDC00 <= n2 && n2 < 0xE000 {
                        Some((utf8_enc(0x10000 + (n1 - 0xD800) * 0x400 + (n2 - 0xDC00)), i + 10))
                    } else {
                        None
                    },
                }
            } else {
                None
            }
        } else {
            None
        },
    }
}

fn parse_escape(s: &[u8], i: usize) -> (r: Option<(Vec<u8>, usize)>)
    requires
        i <= s@.len(),
    ensures
        match r {
            Some(p) => spec_escape(s@, i as int) == Some((p.0@, p.1 as int)) && i < p.1
                <= s@.len(),
            None => spec_escape(s@, i as int) is None,
        },
{
    if i >= s.len() {
        return None;
    }
    let b = s[i];
    if b == 34 {
        let v: Vec<u8> = vec![34];
        assert(v@ =~= seq![34u8]);
        Some((v, i + 1))
    } else if b == 92 {
        let v: Vec<u8> = vec![92];
        assert(v@ =~= seq![92u8]);
        Some((v, i + 1))
    } else if b == 47 {
        let v: Vec<u8> = vec![47];
        assert(v@ =~= seq![47u8]);
        Some((v, i + 1))
    } else if b == 98 {
        let v: Vec<u8> = vec![8];
        assert(v@ =~= seq![8u8]);
        Some((v, i + 1))
    } else if b == 102 {
        let v: Vec<u8> = vec![12];
        assert(v@ =~= seq![12u8]);
        Some((v, i + 1))
    } else if b == 110 {
        let v: Vec<u8> = vec![10];
        assert(v@ =~= seq![10u8]);
        Some((v, i + 1))
    } else if b == 114 {
        let v: Vec<u8> = vec![13];
        assert(v@ =~= seq![13u8]);
        Some((v, i + 1))
    } else if b == 116 {
        let v: Vec<u8> = vec![9];
        assert(v@ =~= seq![9u8]);
        Some((v, i + 1))
    } else if b == 117 {
        match parse_hex4(s, i + 1) {
            None => None,
            Some(n1) => {
                if n1 < 0xD800 || n1 >= 0xE000 {
                    Some((encode_utf8(n1), i + 5))
                } else if n1 < 0xDC00 {
                    if s.len() - (i + 1) >= 6 && s[i + 5] == 92 && s[i + 6] == 117 {
                        match parse_hex4(s, i + 7) {
                            None => None,
                            Some(n2) => if 0xDC00 <= n2 && n2 < 0xE000 {
                                let c: u32 = 0x10000 + (n1 - 0xD800) * 0x400 + (n2 - 0xDC00);
                                Some((encode_utf8(c), i + 11))
                            } else {
                                None
                            },
                        }
                    } else {
                        None
                    }
                } else {
                    None
                }
            }
        }
    } else {
        None
    }
}

/// Decoded content and position just past the closing quote of a string body;
/// `i` stands just after the opening quote. Unescaped control characters are
/// rejected; all other bytes pass through unchanged.
pub open spec fn spec_string_body(s: Seq<u8>, i: int) -> Option<(Seq<u8>, int)>
    decreases s.len() - i,
{
    if !(0 <= i && i < s.len()) {
        None
    } else {
        let b = s[i];
        if b == 34 {
            Some((Seq::empty(), i + 1))
        } else if b == 92 {
            match spec_escape(s, i + 1) {
                None => None,
                Some((e, j)) => if i + 1 < j && j <= s.len() {
                    match spec_string_body(s, j) {
                        None => None,
                        Some((rest, k)) => Some((e + rest, k)),
                    }
                } else {
                    None
                },
            }
        } else if b < 32 {
            None
        } else {
            match spec_string_body(s, i + 1) {
                None => None,
                Some((rest, k)) => Some((seq![b] + rest, k)),
            }
        }
    }
}

/// Decodes a string body starting just after the opening quote.
pub fn parse_string_body(s: &[u8], start: usize) -> (r: Option<(Vec<u8>, usize)>)
    requires
        start <= s@.len(),
    ensures
        match r {
            Some(p) => spec_string_body(s@, start as int) == Some((p.0@, p.1 as int)) && start
                < p.1 <= s@.len(),
            None => spec_string_body(s@, start as int) is None,
        },
{
    let mut cur: usize = start;
    let mut acc: Vec<u8> = Vec::new();
    loop
        invariant
            start <= cur <= s@.len(),
            match spec_string_body(s@, cur as int) {
                None => spec_string_body(s@, start as int) is None,
                Some(p) => spec_string_body(s@, start as int) == Some((acc@ + p.0, p.1)),
            },
        decreases s@.len() - cur,
    {
        if cur >= s.len() {
            return None;
        }
        let b = s[cur];
        if b == 34 {
            proof {
                assert(spec_string_body(s@, cur as int) == Some(
                    (Seq::<u8>::empty(), cur + 1 as int),
                ));
                assert(acc@ + Seq::<u8>::empty() =~= acc@);
            }
            return Some((acc, cur + 1));
        } else if b == 92 {
            match parse_escape(s, cur + 1) {
                None => {
                    return None;
                }
                Some((mut e, j)) => {
                    proof {
                        let sb = spec_string_body(s@, j as int);
                        if sb is Some {
                            assert((acc@ + e@) + sb.unwrap().0 =~= acc@ + (e@ + sb.unwrap().0));
                        }
                    }
                    acc.append(&mut e);
                    cur = j;
                }
            }
        } else if b < 32 {
            return None;
        } else {
            proof {
                let sb = spec_string_body(s@, cur + 1 as int);
                if sb is Some {
                    assert(acc@.push(b) + sb.unwrap().0 =~= acc@ + (seq![b] + sb.unwrap().0));
                }
            }
            acc.push(b);
            cur = cur + 1;
        }
    }
}

/// First position at or after `i` holding a byte that is not a decimal digit.
pub open spec fn spec_skip_digits(s: Seq<u8>, i: int) -> int
    decreases s.len() - i,
{
    if 0 <= i && i < s.len() && is_digit(s[i]) {
        spec_skip_digits(s, i + 1)
    } else {
        i
    }
}

pub proof fn lemma_skip_digits(s: Seq<u8>, i: int)
    requires
        0 <= i <= s.len(),
    ensures
        i <= spec_skip_digits(s, i) <= s.len(),
    decreases s.len() - i,
{
    if i < s.len() && is_digit(s[i]) {
        lemma_skip_digits(s, i + 1);
    }
}

fn skip_digits(s: &[u8], i: usize) -> (r: usize)
    requires
        i <= s@.len(),
    ensures
        r == spec_skip_digits(s@, i as int),
        i <= r <= s@.len(),
{
    let mut j: usize = i;
    while j < s.len() && 48 <= s[j] && s[j] <= 57
        invariant
            i <= j <= s@.len(),
            spec_skip_digits(s@, i as int) == spec_skip_digits(s@, j as int),
        decreases s@.len() - j,
    {
        j = j + 1;
    }
    j
}

/// End position of the fraction part, if any, starting at `i`.
pub open spec fn spec_skip_frac(s: Seq<u8>, i: int) -> Option<int> {
    if 0 <= i && i < s.len() && s[i] == 46 {
        let j = spec_skip_digits(s, i + 1);
        if j > i + 1 {
            Some(j)
        } else {
            None
        }
    } else {
        Some(i)
    }
}

/// End position of the exponent part, if any, starting at `i`.
pub open spec fn spec_skip_exp(s: Seq<u8>, i: int) -> Option<int> {
    if 0 <= i && i < s.len() && (s[i] == 101 || s[i] == 69) {
        let i1 = if i + 1 < s.len() && (s[i + 1] == 43 || s[i + 1] == 45) {
            i + 2
        } else {
            i + 1
        };
        let j = spec_skip_digits(s, i1);
        if j > i1 {
            Some(j)
        } else {
            None
        }
    } else {
        Some(i)
    }
}

/// End position of a JSON number starting at `i`: an optional minus sign, an
/// integer part without leading zeros, and optional fraction and exponent.
pub open spec fn spec_skip_number(s: Seq<u8>, i: int) -> Option<int> {
    let i1 = if 0 <= i && i < s.len() && s[i] == 45 {
        i + 1
    } else {
        i
    };
    if !(0 <= i1 && i1 < s.len() && is_digit(s[i1])) {
        None
    } else {
        let i2 = if s[i1] == 48 {
            i1 + 1
        } else {
            spec_skip_digits(s, i1)
        };
        match spec_skip_frac(s, i2) {
            None => None,
            Some(i3) => spec_skip_exp(s, i3),
        }
    }
}

fn skip_frac(s: &[u8], i: usize) -> (r: Option<usize>)
    requires
        i <= s@.len(),
    ensures
        match r {
            Some(e) => spec_skip_frac(s@, i as int) == Some(e as int) && i <= e <= s@.len(),
            None => spec_skip_frac(s@, i as int) is None,
        },
{
    if i < s.len() && s[i] == 46 {
        let j = skip_digits(s, i + 1);
        if j > i + 1 {
            Some(j)
        } else {
            None
        }
    } else {
        Some(i)
    }
}

fn skip_exp(s: &[u8], i: usize) -> (r: Option<usize>)
    requires
        i <= s@.len(),
    ensures
        match r {
            Some(e) => spec_skip_exp(s@, i as int) == Some(e as int) && i <= e <= s@.len(),
            None => spec_skip_exp(s@, i as int) is None,
        },
{
    if i < s.len() && (s[i] == 101 || s[i] == 69) {
        let i1: usize = if i + 1 < s.len() && (s[i + 1] == 43 || s[i + 1] == 45) {
            i + 2
        } else {
            i + 1
        };
        let j = skip_digits(s, i1);
        if j > i1 {
            Some(j)
        } else {
            None
        }
    } else {
        Some(i)
    }
}

/// Scans one JSON number token.
pub fn skip_number(s: &[u8], i: usize) -> (r: Option<usize>)
    requires
        i <= s@.len(),
    ensures
        match r {
            Some(e) => spec_skip_number(s@, i as int) == Some(e as int) && i < e <= s@.len(),
            None => spec_skip_number(s@, i as int) is None,
        },
{
    let i1: usize = if i < s.len() && s[i] == 45 {
        i + 1
    } else {
        i
    };
    if !(i1 < s.len() && 48 <= s[i1] && s[i1] <= 57) {
        return None;
    }
    let i2: usize = if s[i1] == 48 {
        i1 + 1
    } else {
        skip_digits(s, i1)
    };
    proof {
        if s@[i1 as int] != 48 {
            assert(spec_skip_digits(s@, i1 as int) == spec_skip_digits(s@, i1 + 1 as int));
            lemma_skip_digits(s@, i1 + 1);
        }
    }
    match skip_frac(s, i2) {
        None => None,
        Some(i3) => skip_exp(s, i3),
    }
}

/// Most deeply nested containers a value may hold before it is rejected, a
/// guard against unbounded recursion on hostile input.
pub const MAX_DEPTH: usize = 128;

/// End position of one JSON value starting at `i` (leading whitespace
/// allowed), continued by whatever the stack `st` of open containers still
/// expects: `0` marks an array, `1` an object. The positional guards along
/// the way only restate bounds that always hold; they keep the recursion
/// visibly well-founded.
pub open spec fn sp_value(s: Seq<u8>, i: int, st: Seq<u8>) -> Option<int>
    decreases s.len() - i,
{
    let j = spec_skip_ws(s, i);
    if !(i <= j && j < s.len()) {
        None
    } else {
        let b = s[j];
        if b == 123 {
            let k = spec_skip_ws(s, j + 1);
            if !(j + 1 <= k && k <= s.len()) {
                None
            } else if k < s.len() && s[k] == 125 {
                sp_done(s, k + 1, st)
            } else if st.len() < MAX_DEPTH {
                sp_member(s, j + 1, st.push(1))
            } else {
                None
            }
        } else if b == 91 {
            let k = spec_skip_ws(s, j + 1);
            if !(j + 1 <= k && k <= s.len()) {
                None
            } else if k < s.len() && s[k] == 93 {
                sp_done(s, k + 1, st)
            } else if st.len() < MAX_DEPTH {
                sp_value(s, j + 1, st.push(0))
            } else {
                None
            }
        } else if b == 34 {
            match spec_string_body(s, j + 1) {
                None => None,
                Some((c, k)) => if j + 1 < k && k <= s.len() {
                    sp_done(s, k, st)
                } else {
                    None
                },
            }
        } else if b == 116 {
            if j + 4 <= s.len() && s[j + 1] == 114 && s[j + 2] == 117 && s[j + 3] == 101 {
                sp_done(s, j + 4, st)
            } else {
                None
            }
        } else if b == 102 {
            if j + 5 <= s.len() && s[j + 1] == 97 && s[j + 2] == 108 && s[j + 3] == 115 && s[j
                + 4] == 101 {
                sp_done(s, j + 5, st)
            } else {
                None
            }
        } else if b == 110 {
            if j + 4 <= s.len() && s[j + 1] == 117 && s[j + 2] == 108 && s[j + 3] == 108 {
                sp_done(s, j + 4, st)
            } else {
                None
            }
        } else if b == 45 || is_digit(b) {
            match spec_skip_number(s, j) {
                None => None,
                Some(e) => if j < e && e <= s.len() {
                    sp_done(s, e, st)
                } else {
                    None
                },
            }
        } else {
            None
        }
    }
}

/// A value has just ended at `i`; close or continue the containers `st` still
/// holds open.
pub open spec fn sp_done(s: Seq<u8>, i: int, st: Seq<u8>) -> Option<int>
    decreases s.len() - i,
{
    if !(0 <= i && i <= s.len()) {
        None
    } else if st.len() == 0 {
        Some(i)
    } else {
        let j = spec_skip_ws(s, i);
        if !(i <= j && j < s.len()) {
            None
        } else if st.last() == 0 {
            if s[j] == 44 {
                sp_value(s, j + 1, st)
            } else if s[j] == 93 {
                sp_done(s, j + 1, st.drop_last())
            } else {
                None
            }
        } else {
            if s[j] == 44 {
                sp_member(s, j + 1, st)
            } else if s[j] == 125 {
                sp_done(s, j + 1, st.drop_last())
            } else {
                None
            }
        }
    }
}

/// One object member (key, colon, value) starting at `i`.
pub open spec fn sp_member(s: Seq<u8>, i: int, st: Seq<u8>) -> Option<int>
    decreases s.len() - i,
{
    let j = spec_skip_ws(s, i);
    if !(i <= j && j < s.len() && s[j] == 34) {
        None
    } else {
        match spec_string_body(s, j + 1) {
            None => None,
            Some((c, k)) => if !(j + 1 < k && k <= s.len()) {
                None
            } else {
                let m = spec_skip_ws(s, k);
                if !(k <= m && m < s.len() && s[m] == 58) {
                    None
                } else {
                    sp_value(s, m + 1, st)
                }
            },
        }
    }
}

enum SkipPhase {
    Value,
    Done,
    Member,
}

spec fn sp_dispatch(ph: SkipPhase, s: Seq<u8>, i: int, st: Seq<u8>) -> Option<int> {
    match ph {
        SkipPhase::Value => sp_value(s, i, st),
        SkipPhase::Done => sp_done(s, i, st),
        SkipPhase::Member => sp_member(s, i, st),
    }
}

/// Scans past one JSON value starting at `i`, without interpreting it.
pub fn skip_value(s: &[u8], i: usize) -> (r: Option<usize>)
    requires
        i <= s@.len(),
    ensures
        match r {
            Some(e) => sp_value(s@, i as int, Seq::empty()) == Some(e as int) && i < e
                <= s@.len(),
            None => sp_value(s@, i as int, Seq::empty()) is None,
        },
{
    let mut ph = SkipPhase::Value;
    let mut cur: usize = i;
    let mut stack: Vec<u8> = Vec::new();
    loop
        invariant
            i <= cur <= s@.len(),
            ph is Done ==> i < cur,
            sp_dispatch(ph, s@, cur as int, stack@) == sp_value(s@, i as int, Seq::empty()),
        decreases s@.len() - cur,
    {
        match ph {
            SkipPhase::Value => {
                let j = skip_ws(s, cur);
                if j >= s.len() {
                    return None;
                }
                let b = s[j];
                if b == 123 {
                    let k = skip_ws(s, j + 1);
                    if k < s.len() && s[k] == 125 {
                        ph = SkipPhase::Done;
                        cur = k + 1;
                    } else if stack.len() < MAX_DEPTH {
                        stack.push(1);
                        ph = SkipPhase::Member;
                        cur = j + 1;
                    } else {
                        return None;
                    }
                } else if b == 91 {
                    let k = skip_ws(s, j + 1);
                    if k < s.len() && s[k] == 93 {
                        ph = SkipPhase::Done;
                        cur = k + 1;
                    } else if stack.len() < MAX_DEPTH {
                        stack.push(0);
                        cur = j + 1;
                    } else {
                        return None;
                    }
                } else if b == 34 {
                    match parse_string_body(s, j + 1) {
                        None => {
                            return None;
                        }
                        Some((c, k)) => {
                            ph = SkipPhase::Done;
                            cur = k;
                        }
                    }
                } else if b == 116 {
                    if s.len() - j >= 4 && s[j + 1] == 114 && s[j + 2] == 117 && s[j + 3] == 101 {
                        ph = SkipPhase::Done;
                        cur = j + 4;
                    } else {
                        return None;
                    }
                } else if b == 102 {
                    if s.len() - j >= 5 && s[j + 1] == 97 && s[j + 2] == 108 && s[j + 3] == 115
                        && s[j + 4] == 101 {
                        ph = SkipPhase::Done;
                        cur = j + 5;
                    } else {
                        return None;
                    }
                } else if b == 110 {
                    if s.len() - j >= 4 && s[j + 1] == 117 && s[j + 2] == 108 && s[j + 3] == 108 {
                        ph = SkipPhase::Done;
                        cur = j + 4;
                    } else {
                        return None;
                    }
                } else if b == 45 || (48 <= b && b <= 57) {
                    match skip_number(s, j) {
                        None => {
                            return None;
                        }
                        Some(e) => {
                            ph = SkipPhase::Done;
                            cur = e;
                        }
                    }
                } else {
                    return None;
                }
            }
            SkipPhase::Done => {
                if stack.len() == 0 {
                    return Some(cur);
                }
                let j = skip_ws(s, cur);
                if j >= s.len() {
                    return None;
                }
                let top = stack[stack.len() - 1];
                proof {
                    assert(stack@.last() == top);
                }
                if top == 0 {
                    if s[j] == 44 {
                        ph = SkipPhase::Value;
                        cur = j + 1;
                    } else if s[j] == 93 {
                        let ghost pre = stack@;
                        stack.pop();
                        proof {
                            assert(stack@ =~= pre.drop_last());
                        }
                        cur = j + 1;
                    } else {
                        return None;
                    }
                } else {
                    if s[j] == 44 {
                        ph = SkipPhase::Member;
                        cur = j + 1;
                    } else if s[j] == 125 {
                        let ghost pre = stack@;
                        stack.pop();
                        proof {
                            assert(stack@ =~= pre.drop_last());
                        }
                        cur = j + 1;
                    } else {
                        return None;
                    }
                }
            }
            SkipPhase::Member => {
                let j = skip_ws(s, cur);
                if !(j < s.len() && s[j] == 34) {
                    return None;
                }
                match parse_string_body(s, j + 1) {
                    None => {
                        return None;
                    }
                    Some((c, k)) => {
                        let m = skip_ws(s, k);
                        if !(m < s.len() && s[m] == 58) {
                            return None;
                        }
                        ph = SkipPhase::Value;
                        cur = m + 1;
                    }
                }
            }
        }
    }
}

} // verus!
