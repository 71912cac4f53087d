use vstd::prelude::*;
use crate::json::{Json, JsonV, jview, jview_arr, jview_obj, lemma_jview_arr, lemma_jview_obj};
use crate::text::{char_from_u32, str_to_chars};

verus! {

/// The whitespace characters JSON allows between tokens.
pub open spec fn is_ws(c: char) -> bool {
    c == ' ' || c == '\t' || c == '\n' || c == '\r'
}

pub open spec fn is_digit(c: char) -> bool {
    48 <= (c as u32) && (c as u32) <= 57
}

/// The numeric value of one hexadecimal digit, if the character is one.
pub open spec fn hex_val(c: char) -> Option<int> {
    let u = c as u32;
    if 48 <= u && u <= 57 {
        Some((u - 48) as int)
    } else if 97 <= u && u <= 102 {
        Some((u - 87) as int)
    } else if 65 <= u && u <= 70 {
        Some((u - 55) as int)
    } else {
        None
    }
}

/// The value of the four hexadecimal digits at `i`.
pub open spec fn hex4(s: Seq<char>, i: int) -> Option<int> {
    if 0 <= i && i + 4 <= s.len() {
        match (hex_val(s[i]), hex_val(s[i + 1]), hex_val(s[i + 2]), hex_val(s[i + 3])) {
            (Some(a), Some(b), Some(c), Some(d)) => Some(4096 * a + 256 * b + 16 * c + d),
            _ => None,
        }
    } else {
        None
    }
}

/// Whether a code point from a `\u` escape is a valid scalar value on its own.
pub open spec fn bmp_scalar(n: int) -> bool {
    0 <= n < 0xD800 || 0xE000 <= n < 0x10000
}

/// The first index at or after `i` whose character is not a decimal digit.
pub open spec fn scan_digits(s: Seq<char>, i: int) -> int
    decreases s.len() - i,
{
    if 0 <= i && i < s.len() && is_digit(s[i]) {
        scan_digits(s, i + 1)
    } else {
        i
    }
}

pub proof fn lemma_scan_digits_ge(s: Seq<char>, i: int)
    ensures
        scan_digits(s, i) >= i,
    decreases s.len() - i,
{
    if 0 <= i && i < s.len() && is_digit(s[i]) {
        lemma_scan_digits_ge(s, i + 1);
    }
}

/// The decoded characters of a string body starting at `i` (just after the
/// opening quote), and the index just after the closing quote. Control
/// characters must be escaped; `\u` escapes must denote a scalar value of the
/// basic plane.
pub open spec fn parse_string(s: Seq<char>, i: int) -> Option<(Seq<char>, int)>
    decreases s.len() - i,
{
    if i < 0 || i >= s.len() {
        None
    } else {
        let c = s[i];
        if c == '"' {
            Some((Seq::empty(), i + 1))
        } else if c == '\\' {
            if i + 1 >= s.len() {
                None
            } else {
                let e = s[i + 1];
                if e == 'u' {
                    if i + 6 <= s.len() {
                        match hex4(s, i + 2) {
                            Some(code) => if bmp_scalar(code) {
                                match parse_string(s, i + 6) {
                                    Some((rest, j)) => Some(
                                        (seq![((code as u32) as char)] + rest, j),
                                    ),
                                    None => None,
                                }
                            } else {
                                None
                            },
                            None => None,
                        }
                    } else {
                        None
                    }
                } else {
                    let ch: Option<char> = if e == '"' {
                        Some('"')
                    } else if e == '\\' {
                        Some('\\')
                    } else if e == '/' {
                        Some('/')
                    } else if e == 'n' {
                        Some('\n')
                    } else if e == 't' {
                        Some('\t')
                    } else if e == 'r' {
                        Some('\r')
                    } else if e == 'b' {
                        Some((8u32 as char))
                    } else if e == 'f' {
                        Some((12u32 as char))
                    } else {
                        None
                    };
                    match ch {
                        Some(cc) => match parse_string(s, i + 2) {
                            Some((rest, j)) => Some((seq![cc] + rest, j)),
                            None => None,
                        },
                        None => None,
                    }
                }
            }
        } else if (c as u32) < 32 {
            None
        } else {
            match parse_string(s, i + 1) {
                Some((rest, j)) => Some((seq![c] + rest, j)),
                None => None,
            }
        }
    }
}

/// A number token starting at `i`: optional sign, integer digits, optional
/// fraction, optional exponent. The value is the token text itself.
pub open spec fn parse_number(s: Seq<char>, i: int) -> Option<(JsonV, int)> {
    if i < 0 || i >= s.len() {
        None
    } else {
        let p = if s[i] == '-' {
            i + 1
        } else {
            i
        };
        if p >= s.len() || !is_digit(s[p]) {
            None
        } else {
            let d1 = scan_digits(s, p);
            let p2 = if d1 < s.len() && s[d1] == '.' {
                if d1 + 1 < s.len() && is_digit(s[d1 + 1]) {
                    scan_digits(s, d1 + 1)
                } else {
                    -1
                }
            } else {
                d1
            };
            if p2 < 0 {
                None
            } else {
                let p3 = if p2 < s.len() && (s[p2] == 'e' || s[p2] == 'E') {
                    let q = if p2 + 1 < s.len() && (s[p2 + 1] == '+' || s[p2 + 1] == '-') {
                        p2 + 2
                    } else {
                        p2 + 1
                    };
                    if q < s.len() && is_digit(s[q]) {
                        scan_digits(s, q)
                    } else {
                        -1
                    }
                } else {
                    p2
                };
                if p3 < 0 {
                    None
                } else {
                    Some((JsonV::Num(s.subrange(i, p3)), p3))
                }
            }
        }
    }
}

/// After a value inside an array or object: skips whitespace, then expects a
/// comma (more members follow) or the closing character.
pub open spec fn parse_delim(s: Seq<char>, i: int, close: char) -> Option<(bool, int)>
    decreases s.len() - i, 0int,
{
    if i < 0 || i >= s.len() {
        None
    } else if is_ws(s[i]) {
        parse_delim(s, i + 1, close)
    } else if s[i] == ',' {
        Some((true, i + 1))
    } else if s[i] == close {
        Some((false, i + 1))
    } else {
        None
    }
}

/// After an object key: skips whitespace, then expects a colon.
pub open spec fn parse_colon(s: Seq<char>, i: int) -> Option<int>
    decreases s.len() - i, 0int,
{
    if i < 0 || i >= s.len() {
        None
    } else if is_ws(s[i]) {
        parse_colon(s, i + 1)
    } else if s[i] == ':' {
        Some(i + 1)
    } else {
        None
    }
}

/// A JSON value starting at `i`, leading whitespace allowed, and the index
/// just after it.
pub open spec fn parse_value(s: Seq<char>, i: int) -> Option<(JsonV, int)>
    decreases s.len() - i, 1int,
{
    if i < 0 || i >= s.len() {
        None
    } else {
        let c = s[i];
        if is_ws(c) {
            parse_value(s, i + 1)
        } else if c == 'n' {
            if i + 4 <= s.len() && s[i + 1] == 'u' && s[i + 2] == 'l' && s[i + 3] == 'l' {
                Some((JsonV::Null, i + 4))
            } else {
                None
            }
        } else if c == 't' {
            if i + 4 <= s.len() && s[i + 1] == 'r' && s[i + 2] == 'u' && s[i + 3] == 'e' {
                Some((JsonV::Bool(true), i + 4))
            } else {
                None
            }
        } else if c == 'f' {
            if i + 5 <= s.len() && s[i + 1] == 'a' && s[i + 2] == 'l' && s[i + 3] == 's'
                && s[i + 4] == 'e' {
                Some((JsonV::Bool(false), i + 5))
            } else {
                None
            }
        } else if c == '"' {
            match parse_string(s, i + 1) {
                Some((t, j)) => Some((JsonV::Str(t), j)),
                None => None,
            }
        } else if c == '[' {
            parse_arr_open(s, i + 1)
        } else if c == '{' {
            parse_obj_open(s, i + 1)
        } else if c == '-' || is_digit(c) {
            parse_number(s, i)
        } else {
            None
        }
    }
}

/// Just after `[`: skips whitespace, then an empty array or its items.
pub open spec fn parse_arr_open(s: Seq<char>, i: int) -> Option<(JsonV, int)>
    decreases s.len() - i, 3int,
{
    if i < 0 || i >= s.len() {
        None
    } else if is_ws(s[i]) {
        parse_arr_open(s, i + 1)
    } else if s[i] == ']' {
        Some((JsonV::Arr(Seq::empty()), i + 1))
    } else {
        match parse_items(s, i) {
            Some((items, j)) => Some((JsonV::Arr(items), j)),
            None => None,
        }
    }
}

/// One or more comma-separated array items starting at `i`, and the index
/// just after the closing `]`.
pub open spec fn parse_items(s: Seq<char>, i: int) -> Option<(Seq<JsonV>, int)>
    decreases s.len() - i, 2int,
{
    match parse_value(s, i) {
        Some((v, j)) => if i <= j && j <= s.len() {
            match parse_delim(s, j, ']') {
                Some((more, k)) => if more {
                    if i < k && k <= s.len() {
                        match parse_items(s, k) {
                            Some((rest, m)) => Some((seq![v] + rest, m)),
                            None => None,
                        }
                    } else {
                        None
                    }
                } else {
                    Some((seq![v], k))
                },
                None => None,
            }
        } else {
            None
        },
        None => None,
    }
}

/// Just after `{`: skips whitespace, then an empty object or its members.
pub open spec fn parse_obj_open(s: Seq<char>, i: int) -> Option<(JsonV, int)>
    decreases s.len() - i, 3int,
{
    if i < 0 || i >= s.len() {
        None
    } else if is_ws(s[i]) {
        parse_obj_open(s, i + 1)
    } else if s[i] == '}' {
        Some((JsonV::Obj(Seq::empty()), i + 1))
    } else {
        match parse_members(s, i) {
            Some((members, j)) => Some((JsonV::Obj(members), j)),
            None => None,
        }
    }
}

/// One or more `"key": value` members starting at `i`, and the index just
/// after the closing `}`.
pub open spec fn parse_members(s: Seq<char>, i: int) -> Option<(Seq<(Seq<char>, JsonV)>, int)>
    decreases s.len() - i, 2int,
{
    if i < 0 || i >= s.len() {
        None
    } else if is_ws(s[i]) {
        parse_members(s, i + 1)
    } else if s[i] == '"' {
        match parse_string(s, i + 1) {
            Some((key, j)) => if i < j && j <= s.len() {
                match parse_colon(s, j) {
                    Some(k) => if i < k && k <= s.len() {
                        match parse_value(s, k) {
                            Some((v, jv)) => if i <= jv && jv <= s.len() {
                                match parse_delim(s, jv, '}') {
                                    Some((more, kk)) => if more {
                                        if i < kk && kk <= s.len() {
                                            match parse_members(s, kk) {
                                                Some((rest, m)) => Some(
                                                    (seq![(key, v)] + rest, m),
                                                ),
                                                None => None,
                                            }
                                        } else {
                                            None
                                        }
                                    } else {
                                        Some((seq![(key, v)], kk))
                                    },
                                    None => None,
                                }
                            } else {
                                None
                            },
                            None => None,
                        }
                    } else {
                        None
                    },
                    None => None,
                }
            } else {
                None
            },
            None => None,
        }
    } else {
        None
    }
}

/// Whether everything from `i` on is whitespace.
pub open spec fn all_ws_from(s: Seq<char>, i: int) -> bool {
    forall|k: int| i <= k < s.len() ==> is_ws(#[trigger] s[k])
}

/// A whole document: one JSON value with nothing but whitespace around it.
pub open spec fn parse_doc(s: Seq<char>) -> Option<JsonV> {
    match parse_value(s, 0) {
        Some((v, j)) => if all_ws_from(s, j) {
            Some(v)
        } else {
            None
        },
        None => None,
    }
}

/// Correspondence between an executable parse result and its specification.
pub open spec fn val_rel(r: Option<(Json, usize)>, sp: Option<(JsonV, int)>) -> bool {
    match (r, sp) {
        (Some(p), Some(q)) => jview(p.0) == q.0 && p.1 as int == q.1,
        (None, None) => true,
        _ => false,
    }
}

pub open spec fn str_rel(r: Option<(Vec<char>, usize)>, sp: Option<(Seq<char>, int)>) -> bool {
    match (r, sp) {
        (Some(p), Some(q)) => p.0@ == q.0 && p.1 as int == q.1,
        (None, None) => true,
        _ => false,
    }
}

pub open spec fn items_rel(r: Option<(Vec<Json>, usize)>, sp: Option<(Seq<JsonV>, int)>) -> bool {
    match (r, sp) {
        (Some(p), Some(q)) => jview_arr(p.0@, p.0@.len() as int) == q.0 && p.1 as int == q.1,
        (None, None) => true,
        _ => false,
    }
}

pub open spec fn members_rel(
    r: Option<(Vec<(Vec<char>, Json)>, usize)>,
    sp: Option<(Seq<(Seq<char>, JsonV)>, int)>,
) -> bool {
    match (r, sp) {
        (Some(p), Some(q)) => jview_obj(p.0@, p.0@.len() as int) == q.0 && p.1 as int == q.1,
        (None, None) => true,
        _ => false,
    }
}

fn is_ws_exec(c: char) -> (b: bool)
    ensures
        b == is_ws(c),
{
    c == ' ' || c == '\t' || c == '\n' || c == '\r'
}

fn is_digit_exec(c: char) -> (b: bool)
    ensures
        b == is_digit(c),
{
    48 <= (c as u32) && (c as u32) <= 57
}

fn hex_val_exec(c: char) -> (r: Option<u32>)
    ensures
        match (r, hex_val(c)) {
            (Some(a), Some(b)) => a as int == b && a < 16,
            (None, None) => true,
            _ => false,
        },
{
    let u = c as u32;
    if 48 <= u && u <= 57 {
        Some(u - 48)
    } else if 97 <= u && u <= 102 {
        Some(u - 87)
    } else if 65 <= u && u <= 70 {
        Some(u - 55)
    } else {
        None
    }
}

fn hex4_exec(s: &Vec<char>, i: usize) -> (r: Option<u32>)
    requires
        i + 4 <= s@.len(),
    ensures
        match (r, hex4(s@, i as int)) {
            (Some(a), Some(b)) => a as int == b && a < 0x10000,
            (None, None) => true,
            _ => false,
        },
{
    let n = s.len();
    match (hex_val_exec(s[i]), hex_val_exec(s[i + 1]), hex_val_exec(s[i + 2]), hex_val_exec(
        s[i + 3],
    )) {
        (Some(a), Some(b), Some(c), Some(d)) => Some(4096 * a + 256 * b + 16 * c + d),
        _ => None,
    }
}

fn scan_digits_exec(s: &Vec<char>, i: usize) -> (r: usize)
    requires
        i <= s@.len(),
    ensures
        r as int == scan_digits(s@, i as int),
        i <= r <= s@.len(),
{
    let mut j = i;
    while j < s.len() && is_digit_exec(s[j])
        invariant
            i <= j <= s@.len(),
            scan_digits(s@, i as int) == scan_digits(s@, j as int),
        decreases s@.len() - j,
    {
        j = j + 1;
    }
    j
}

/// Copies the characters of `s` in `[a, b)`.
fn copy_range(s: &Vec<char>, a: usize, b: usize) -> (r: Vec<char>)
    requires
        a <= b <= s@.len(),
    ensures
        r@ == s@.subrange(a as int, b as int),
{
    let mut out: Vec<char> = Vec::new();
    let mut k = a;
    while k < b
        invariant
            a <= k <= b <= s@.len(),
            out@ == s@.subrange(a as int, k as int),
        decreases b - k,
    {
        out.push(s[k]);
        assert(out@ =~= s@.subrange(a as int, k + 1 as int));
        k = k + 1;
    }
    out
}

fn p_string(s: &Vec<char>, i: usize) -> (r: Option<(Vec<char>, usize)>)
    requires
        i <= s@.len(),
    ensures
        str_rel(r, parse_string(s@, i as int)),
        r matches Some(p) ==> i < p.1 <= s@.len(),
    decreases s@.len() - i,
{
    if i >= s.len() {
        return None;
    }
    let c = s[i];
    if c == '"' {
        let empty: Vec<char> = Vec::new();
        Some((empty, i + 1))
    } else if c == '\\' {
        if i + 1 >= s.len() {
            return None;
        }
        let e = s[i + 1];
        if e == 'u' {
            if s.len() - i >= 6 {
                match hex4_exec(s, i + 2) {
                    Some(code) => {
                        if code < 0xD800 || (0xE000 <= code && code < 0x10000) {
                            match char_from_u32(code) {
                                Some(cc) => match p_string(s, i + 6) {
                                    Some((mut rest, j)) => {
                                        let ghost old_rest = rest@;
                                        rest.insert(0, cc);
                                        assert(rest@ =~= seq![cc] + old_rest);
                                        Some((rest, j))
                                    },
                                    None => None,
                                },
                                None => None,
                            }
                        } else {
                            None
                        }
                    },
                    None => None,
                }
            } else {
                None
            }
        } else {
            let ch: Option<char> = if e == '"' {
                Some('"')
            } else if e == '\\' {
                Some('\\')
            } else if e == '/' {
                Some('/')
            } else if e == 'n' {
                Some('\n')
            } else if e == 't' {
                Some('\t')
            } else if e == 'r' {
                Some('\r')
            } else if e == 'b' {
                match char_from_u32(8) {
                    Some(cc) => Some(cc),
                    None => None,
                }
            } else if e == 'f' {
                match char_from_u32(12) {
                    Some(cc) => Some(cc),
                    None => None,
                }
            } else {
                None
            };
            match ch {
                Some(cc) => match p_string(s, i + 2) {
                    Some((mut rest, j)) => {
                        let ghost old_rest = rest@;
                        rest.insert(0, cc);
                        assert(rest@ =~= seq![cc] + old_rest);
                        Some((rest, j))
                    },
                    None => None,
                },
                None => None,
            }
        }
    } else if (c as u32) < 32 {
        None
    } else {
        match p_string(s, i + 1) {
            Some((mut rest, j)) => {
                let ghost old_rest = rest@;
                rest.insert(0, c);
                assert(rest@ =~= seq![c] + old_rest);
                Some((rest, j))
            },
            None => None,
        }
    }
}

fn p_number(s: &Vec<char>, i: usize) -> (r: Option<(Json, usize)>)
    requires
        i <= s@.len(),
    ensures
        val_rel(r, parse_number(s@, i as int)),
        r matches Some(p) ==> i < p.1 <= s@.len(),
{
    if i >= s.len() {
        return None;
    }
    let p = if s[i] == '-' {
        i + 1
    } else {
        i
    };
    if p >= s.len() {
        return None;
    }
    if !is_digit_exec(s[p]) {
        return None;
    }
    let d1 = scan_digits_exec(s, p);
    proof {
        lemma_scan_digits_ge(s@, p as int + 1);
        reveal_with_fuel(scan_digits, 2);
        assert(d1 > p);
    }
    let has_frac = d1 < s.len() && s[d1] == '.';
    let p2: usize = if has_frac {
        if d1 + 1 < s.len() && is_digit_exec(s[d1 + 1]) {
            scan_digits_exec(s, d1 + 1)
        } else {
            return None;
        }
    } else {
        d1
    };
    let has_exp = p2 < s.len() && (s[p2] == 'e' || s[p2] == 'E');
    let p3: usize = if has_exp {
        let q = if p2 + 1 < s.len() && (s[p2 + 1] == '+' || s[p2 + 1] == '-') {
            p2 + 2
        } else {
            p2 + 1
        };
        if q < s.len() && is_digit_exec(s[q]) {
            scan_digits_exec(s, q)
        } else {
            return None;
        }
    } else {
        p2
    };
    let token = copy_range(s, i, p3);
    Some((Json::Num(token), p3))
}

fn p_delim(s: &Vec<char>, i: usize, close: char) -> (r: Option<(bool, usize)>)
    requires
        i <= s@.len(),
    ensures
        match (r, parse_delim(s@, i as int, close)) {
            (Some(p), Some(q)) => p.0 == q.0 && p.1 as int == q.1,
            (None, None) => true,
            _ => false,
        },
        r matches Some(p) ==> i < p.1 <= s@.len(),
    decreases s@.len() - i,
{
    if i >= s.len() {
        None
    } else if is_ws_exec(s[i]) {
        p_delim(s, i + 1, close)
    } else if s[i] == ',' {
        Some((true, i + 1))
    } else if s[i] == close {
        Some((false, i + 1))
    } else {
        None
    }
}

fn p_colon(s: &Vec<char>, i: usize) -> (r: Option<usize>)
    requires
        i <= s@.len(),
    ensures
        match (r, parse_colon(s@, i as int)) {
            (Some(p), Some(q)) => p as int == q,
            (None, None) => true,
            _ => false,
        },
        r matches Some(p) ==> i < p <= s@.len(),
    decreases s@.len() - i,
{
    if i >= s.len() {
        None
    } else if is_ws_exec(s[i]) {
        p_colon(s, i + 1)
    } else if s[i] == ':' {
        Some(i + 1)
    } else {
        None
    }
}

fn p_value(s: &Vec<char>, i: usize) -> (r: Option<(Json, usize)>)
    requires
        i <= s@.len(),
    ensures
        val_rel(r, parse_value(s@, i as int)),
        r matches Some(p) ==> i < p.1 <= s@.len(),
    decreases s@.len() - i, 1int,
{
    if i >= s.len() {
        return None;
    }
    let c = s[i];
    if is_ws_exec(c) {
        p_value(s, i + 1)
    } else if c == 'n' {
        if s.len() - i >= 4 && s[i + 1] == 'u' && s[i + 2] == 'l' && s[i + 3] == 'l' {
            Some((Json::Null, i + 4))
        } else {
            None
        }
    } else if c == 't' {
        if s.len() - i >= 4 && s[i + 1] == 'r' && s[i + 2] == 'u' && s[i + 3] == 'e' {
            Some((Json::Bool(true), i + 4))
        } else {
            None
        }
    } else if c == 'f' {
        if s.len() - i >= 5 && s[i + 1] == 'a' && s[i + 2] == 'l' && s[i + 3] == 's' && s[i + 4]
            == 'e' {
            Some((Json::Bool(false), i + 5))
        } else {
            None
        }
    } else if c == '"' {
        match p_string(s, i + 1) {
            Some((t, j)) => Some((Json::Str(t), j)),
            None => None,
        }
    } else if c == '[' {
        p_arr_open(s, i + 1)
    } else if c == '{' {
        p_obj_open(s, i + 1)
    } else if c == '-' || is_digit_exec(c) {
        p_number(s, i)
    } else {
        None
    }
}

fn p_arr_open(s: &Vec<char>, i: usize) -> (r: Option<(Json, usize)>)
    requires
        i <= s@.len(),
    ensures
        val_rel(r, parse_arr_open(s@, i as int)),
        r matches Some(p) ==> i < p.1 <= s@.len(),
    decreases s@.len() - i, 3int,
{
    if i >= s.len() {
        None
    } else if is_ws_exec(s[i]) {
        p_arr_open(s, i + 1)
    } else if s[i] == ']' {
        let empty: Vec<Json> = Vec::new();
        Some((Json::Arr(empty), i + 1))
    } else {
        match p_items(s, i) {
            Some((items, j)) => Some((Json::Arr(items), j)),
            None => None,
        }
    }
}

fn p_items(s: &Vec<char>, i: usize) -> (r: Option<(Vec<Json>, usize)>)
    requires
        i <= s@.len(),
    ensures
        items_rel(r, parse_items(s@, i as int)),
        r matches Some(p) ==> i < p.1 <= s@.len(),
    decreases s@.len() - i, 2int,
{
    match p_value(s, i) {
        Some((v, j)) => {
            match p_delim(s, j, ']') {
                Some((more, k)) => {
                    if more {
                        match p_items(s, k) {
                            Some((mut rest, m)) => {
                                let ghost old_rest = rest@;
                                let ghost vv = jview(v);
                                rest.insert(0, v);
                                assert(jview_arr(rest@, rest@.len() as int) =~= seq![vv]
                                    + jview_arr(old_rest, old_rest.len() as int)) by {
                                    lemma_jview_arr(rest@, rest@.len() as int);
                                    lemma_jview_arr(old_rest, old_rest.len() as int);
                                    assert(rest@ =~= seq![rest@[0]] + old_rest);
                                };
                                Some((rest, m))
                            },
                            None => None,
                        }
                    } else {
                        let mut items: Vec<Json> = Vec::new();
                        let ghost vv = jview(v);
                        items.push(v);
                        assert(jview_arr(items@, 1) =~= seq![vv]) by {
                            lemma_jview_arr(items@, 1);
                        };
                        Some((items, k))
                    }
                },
                None => None,
            }
        },
        None => None,
    }
}

fn p_obj_open(s: &Vec<char>, i: usize) -> (r: Option<(Json, usize)>)
    requires
        i <= s@.len(),
    ensures
        val_rel(r, parse_obj_open(s@, i as int)),
        r matches Some(p) ==> i < p.1 <= s@.len(),
    decreases s@.len() - i, 3int,
{
    if i >= s.len() {
        None
    } else if is_ws_exec(s[i]) {
        p_obj_open(s, i + 1)
    } else if s[i] == '}' {
        let empty: Vec<(Vec<char>, Json)> = Vec::new();
        Some((Json::Obj(empty), i + 1))
    } else {
        match p_members(s, i) {
            Some((members, j)) => Some((Json::Obj(members), j)),
            None => None,
        }
    }
}

fn p_members(s: &Vec<char>, i: usize) -> (r: Option<(Vec<(Vec<char>, Json)>, usize)>)
    requires
        i <= s@.len(),
    ensures
        members_rel(r, parse_members(s@, i as int)),
        r matches Some(p) ==> i < p.1 <= s@.len(),
    decreases s@.len() - i, 2int,
{
    if i >= s.len() {
        return None;
    }
    if is_ws_exec(s[i]) {
        return p_members(s, i + 1);
    }
    if s[i] != '"' {
        return None;
    }
    match p_string(s, i + 1) {
        Some((key, j)) => {
            match p_colon(s, j) {
                Some(k) => {
                    match p_value(s, k) {
                        Some((v, jv)) => {
                            match p_delim(s, jv, '}') {
                                Some((more, kk)) => {
                                    if more {
                                        match p_members(s, kk) {
                                            Some((mut rest, m)) => {
                                                let ghost old_rest = rest@;
                                                let ghost kv = (key@, jview(v));
                                                rest.insert(0, (key, v));
                                                assert(jview_obj(rest@, rest@.len() as int)
                                                    =~= seq![kv] + jview_obj(
                                                    old_rest,
                                                    old_rest.len() as int,
                                                )) by {
                                                    lemma_jview_obj(rest@, rest@.len() as int);
                                                    lemma_jview_obj(
                                                        old_rest,
                                                        old_rest.len() as int,
                                                    );
                                                    assert(rest@ =~= seq![rest@[0]] + old_rest);
                                                };
                                                Some((rest, m))
                                            },
                                            None => None,
                                        }
                                    } else {
                                        let mut members: Vec<(Vec<char>, Json)> = Vec::new();
                                        let ghost kv = (key@, jview(v));
                                        members.push((key, v));
                                        assert(jview_obj(members@, 1) =~= seq![kv]) by {
                                            lemma_jview_obj(members@, 1);
                                        };
                                        Some((members, kk))
                                    }
                                },
                                None => None,
                            }
                        },
                        None => None,
                    }
                },
                None => None,
            }
        },
        None => None,
    }
}

/// Parses a whole document held in a character vector.
pub fn parse_chars(s: &Vec<char>) -> (r: Option<Json>)
    ensures
        match (r, parse_doc(s@)) {
            (Some(j), Some(v)) => jview(j) == v,
            (None, None) => true,
            _ => false,
        },
{
    match p_value(s, 0) {
        Some((v, j)) => {
            let mut k = j;
            while k < s.len()
                invariant
                    j <= k <= s@.len(),
                    parse_value(s@, 0) == Some((jview(v), j as int)),
                    forall|m: int| j <= m < k ==> is_ws(#[trigger] s@[m]),
                decreases s@.len() - k,
            {
                if !is_ws_exec(s[k]) {
                    assert(!all_ws_from(s@, j as int));
                    return None;
                }
                k = k + 1;
            }
            assert(all_ws_from(s@, j as int));
            Some(v)
        },
        None => None,
    }
}

/// Parses a whole document: one JSON value with only whitespace around it.
pub fn parse_text(s: &str) -> (r: Option<Json>)
    ensures
        match (r, parse_doc(s@)) {
            (Some(j), Some(v)) => jview(j) == v,
            (None, None) => true,
            _ => false,
        },
{
    let chars = str_to_chars(s);
    parse_chars(&chars)
}

} // verus!
