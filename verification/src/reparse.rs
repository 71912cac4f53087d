use vstd::prelude::*;
use crate::decode::{parse_lines_from, records_of, split_lines};
use crate::json::{
    JsonV, escape_char, escape_str, print_items, print_json, print_member, print_members,
    spec_hex_digit,
};
use crate::laws::{lemma_array_normalization_lines, lemma_clean_items_index, lemma_parse_doc_clean};
use crate::normalize::ndjson_of;
use crate::parse::{all_ws_from, hex4, hex_val, is_digit, is_ws, lemma_scan_digits_ge,
    parse_arr_open, parse_colon, parse_delim, parse_doc, parse_items, parse_members, parse_number,
    parse_obj_open, parse_string, parse_value, scan_digits};

verus! {

broadcast use vstd::seq::axiom_seq_index_decreases, vstd::seq::axiom_seq_subrange_decreases;

/// The text holds `p` verbatim at position `i`.
pub open spec fn match_at(t: Seq<char>, i: int, p: Seq<char>) -> bool {
    &&& 0 <= i
    &&& i + p.len() <= t.len()
    &&& forall|k: int| 0 <= k < p.len() ==> t[i + k] == p[k]
}

/// A character that, placed right after a number token, would lengthen it.
pub open spec fn extends_number(c: char) -> bool {
    is_digit(c) || c == '.' || c == 'e' || c == 'E'
}

/// Position `j` can follow a number token: the end of the text, or a
/// character that cannot lengthen the token.
pub open spec fn boundary_ok(t: Seq<char>, j: int) -> bool {
    j >= t.len() || !extends_number(t[j])
}

/// A well-formed number token: parsing it alone consumes exactly the whole
/// token.
pub open spec fn num_token_wf(t: Seq<char>) -> bool {
    parse_number(t, 0) == Some((JsonV::Num(t), t.len() as int))
}

/// A value every number token of which is well formed, so that its printed
/// text parses back to it. Every value a parse yields is of this kind.
pub open spec fn wf_json(v: JsonV) -> bool
    decreases v, 0int,
{
    match v {
        JsonV::Null => true,
        JsonV::Bool(_) => true,
        JsonV::Num(t) => num_token_wf(t),
        JsonV::Str(_) => true,
        JsonV::Arr(items) => wf_items(items, items.len() as int),
        JsonV::Obj(members) => wf_members(members, members.len() as int),
    }
}

pub open spec fn wf_items(items: Seq<JsonV>, n: int) -> bool
    decreases items, n,
{
    if n <= 0 || items.len() < n {
        true
    } else {
        wf_items(items, n - 1) && wf_json(items[n - 1])
    }
}

pub open spec fn wf_members(members: Seq<(Seq<char>, JsonV)>, n: int) -> bool
    decreases members, n,
{
    if n <= 0 || members.len() < n {
        true
    } else {
        wf_members(members, n - 1) && wf_json(members[n - 1].1)
    }
}

pub proof fn lemma_wf_items_index(items: Seq<JsonV>, n: int, i: int)
    requires
        wf_items(items, n),
        0 <= i < n <= items.len(),
    ensures
        wf_json(items[i]),
    decreases n,
{
    if i < n - 1 {
        lemma_wf_items_index(items, n - 1, i);
    }
}

pub proof fn lemma_wf_members_index(members: Seq<(Seq<char>, JsonV)>, n: int, i: int)
    requires
        wf_members(members, n),
        0 <= i < n <= members.len(),
    ensures
        wf_json(members[i].1),
    decreases n,
{
    if i < n - 1 {
        lemma_wf_members_index(members, n - 1, i);
    }
}

proof fn lemma_wf_items_cons(v: JsonV, rest: Seq<JsonV>, n: int)
    requires
        1 <= n <= rest.len() + 1,
    ensures
        wf_items(seq![v] + rest, n) == (wf_json(v) && wf_items(rest, n - 1)),
    decreases n,
{
    let c = seq![v] + rest;
    assert(c[0] == v);
    if n == 1 {
        assert(wf_items(c, 1) == (wf_items(c, 0) && wf_json(c[0])));
    } else {
        lemma_wf_items_cons(v, rest, n - 1);
        assert(c[n - 1] == rest[n - 2]);
    }
}

proof fn lemma_wf_members_cons(kv: (Seq<char>, JsonV), rest: Seq<(Seq<char>, JsonV)>, n: int)
    requires
        1 <= n <= rest.len() + 1,
    ensures
        wf_members(seq![kv] + rest, n) == (wf_json(kv.1) && wf_members(rest, n - 1)),
    decreases n,
{
    let c = seq![kv] + rest;
    assert(c[0] == kv);
    if n == 1 {
        assert(wf_members(c, 1) == (wf_members(c, 0) && wf_json(c[0].1)));
    } else {
        lemma_wf_members_cons(kv, rest, n - 1);
        assert(c[n - 1] == rest[n - 2]);
    }
}

/// A well-formed value prints to at least one character.
proof fn lemma_print_nonempty(v: JsonV)
    requires
        wf_json(v),
    ensures
        print_json(v).len() >= 1,
{
    match v {
        JsonV::Num(t) => {
            assert(parse_number(t, 0) is Some);
        },
        _ => {},
    }
}

proof fn lemma_escape_str_cons(t: Seq<char>, n: int)
    requires
        1 <= n <= t.len(),
    ensures
        escape_str(t, n) == escape_char(t[0]) + escape_str(t.subrange(1, t.len() as int), n - 1),
    decreases n,
{
    let t2 = t.subrange(1, t.len() as int);
    if n == 1 {
        assert(escape_str(t, 0) == Seq::<char>::empty());
        assert(escape_str(t2, 0) == Seq::<char>::empty());
        assert(escape_str(t, 1) == escape_str(t, 0) + escape_char(t[0]));
        assert(escape_str(t, 1) =~= escape_char(t[0]) + escape_str(t2, 0));
    } else {
        lemma_escape_str_cons(t, n - 1);
        assert(t2[n - 2] == t[n - 1]);
        assert(escape_str(t, n) =~= escape_char(t[0]) + escape_str(t2, n - 1));
    }
}

proof fn lemma_print_items_cons(items: Seq<JsonV>, n: int)
    requires
        2 <= n <= items.len(),
    ensures
        print_items(items, n) == print_json(items[0]) + seq![','] + print_items(
            items.subrange(1, items.len() as int),
            n - 1,
        ),
    decreases n,
{
    let r = items.subrange(1, items.len() as int);
    if n == 2 {
        assert(r[0] == items[1]);
        assert(r.len() == items.len() - 1);
        assert(print_items(items, 2) == print_items(items, 1) + seq![','] + print_json(items[1]));
        assert(print_items(items, 1) == print_json(items[0]));
        assert(print_items(r, 1) == print_json(r[0]));
        assert(print_items(items, 2) =~= print_json(items[0]) + seq![','] + print_items(r, 1));
    } else {
        lemma_print_items_cons(items, n - 1);
        assert(r[n - 2] == items[n - 1]);
        assert(print_items(items, n) =~= print_json(items[0]) + seq![','] + print_items(
            r,
            n - 1,
        ));
    }
}

proof fn lemma_print_members_cons(members: Seq<(Seq<char>, JsonV)>, n: int)
    requires
        2 <= n <= members.len(),
    ensures
        print_members(members, n) == print_member(members[0].0, members[0].1) + seq![',']
            + print_members(members.subrange(1, members.len() as int), n - 1),
    decreases n,
{
    let r = members.subrange(1, members.len() as int);
    if n == 2 {
        assert(r[0] == members[1]);
        assert(r.len() == members.len() - 1);
        assert(print_members(members, 2) == print_members(members, 1) + seq![','] + print_member(
            members[1].0,
            members[1].1,
        ));
        assert(print_members(members, 1) == print_member(members[0].0, members[0].1));
        assert(print_members(r, 1) == print_member(r[0].0, r[0].1));
        assert(print_members(members, 2) =~= print_member(members[0].0, members[0].1)
            + seq![','] + print_members(r, 1));
    } else {
        lemma_print_members_cons(members, n - 1);
        assert(r[n - 2] == members[n - 1]);
        assert(print_members(members, n) =~= print_member(members[0].0, members[0].1)
            + seq![','] + print_members(r, n - 1));
    }
}

proof fn lemma_char_cast_roundtrip(c: char)
    ensures
        ((c as u32) as char) == c,
{
    vstd::utf8::char_u32_cast(c, c as u32);
}

proof fn lemma_hex_digit_roundtrip(d: int)
    requires
        0 <= d < 16,
    ensures
        hex_val(spec_hex_digit(d)) == Some(d),
{
}

proof fn lemma_scan_digits_le(s: Seq<char>, i: int)
    requires
        0 <= i <= s.len(),
    ensures
        scan_digits(s, i) <= s.len(),
    decreases s.len() - i,
{
    if i < s.len() && is_digit(s[i]) {
        lemma_scan_digits_le(s, i + 1);
    }
}

/// A digit scan confined to `[a, b)` behaves as the scan on the whole text,
/// shifted.
proof fn lemma_scan_digits_sub(s: Seq<char>, a: int, b: int, k: int)
    requires
        0 <= a <= k <= b <= s.len(),
        scan_digits(s, k) <= b,
    ensures
        scan_digits(s.subrange(a, b), k - a) == scan_digits(s, k) - a,
    decreases b - k,
{
    let t = s.subrange(a, b);
    if k < s.len() && is_digit(s[k]) && k < b {
        assert(t[k - a] == s[k]);
        assert(scan_digits(s, k) == scan_digits(s, k + 1));
        lemma_scan_digits_ge(s, k + 1);
        lemma_scan_digits_sub(s, a, b, k + 1);
    } else {
        if k == b {
            assert(scan_digits(t, k - a) == k - a);
        } else {
            assert(t[k - a] == s[k]);
            assert(scan_digits(t, k - a) == k - a);
        }
        lemma_scan_digits_ge(s, k);
        assert(scan_digits(s, k) == k);
    }
}

/// A digit scan over an embedded copy of a token behaves as the scan on the
/// token, shifted, provided a digit cannot follow the token.
proof fn lemma_scan_digits_embed(big: Seq<char>, i: int, tok: Seq<char>, k: int)
    requires
        match_at(big, i, tok),
        0 <= k <= tok.len(),
        scan_digits(tok, k) == tok.len() ==> (i + tok.len() == big.len() || !is_digit(
            big[i + tok.len()],
        )),
    ensures
        scan_digits(big, i + k) == i + scan_digits(tok, k),
    decreases tok.len() - k,
{
    if k < tok.len() && is_digit(tok[k]) {
        assert(big[i + k] == tok[k]);
        assert(scan_digits(tok, k) == scan_digits(tok, k + 1));
        lemma_scan_digits_embed(big, i, tok, k + 1);
    } else if k == tok.len() {
        assert(scan_digits(tok, k) == k);
        assert(scan_digits(big, i + k) == i + k);
    } else {
        assert(big[i + k] == tok[k]);
        assert(scan_digits(tok, k) == k);
        assert(scan_digits(big, i + k) == i + k);
    }
}

/// The token a number parse yields is itself a well-formed number token:
/// parsed alone, it is consumed exactly.
proof fn lemma_parse_number_wf(s: Seq<char>, i: int)
    ensures
        parse_number(s, i) matches Some(p) ==> num_token_wf(p.0->Num_0),
{
    if parse_number(s, i) is Some {
        let p = if s[i] == '-' {
            i + 1
        } else {
            i
        };
        let d1 = scan_digits(s, p);
        let p2 = if d1 < s.len() && s[d1] == '.' {
            if d1 + 1 < s.len() && is_digit(s[d1 + 1]) {
                scan_digits(s, d1 + 1)
            } else {
                -1
            }
        } else {
            d1
        };
        let q = if p2 + 1 < s.len() && (s[p2 + 1] == '+' || s[p2 + 1] == '-') {
            p2 + 2
        } else {
            p2 + 1
        };
        let has_exp = p2 >= 0 && p2 < s.len() && (s[p2] == 'e' || s[p2] == 'E');
        let p3 = if has_exp {
            if q < s.len() && is_digit(s[q]) {
                scan_digits(s, q)
            } else {
                -1
            }
        } else {
            p2
        };
        assert(0 <= i && i < s.len());
        assert(p < s.len() && is_digit(s[p]));
        lemma_scan_digits_ge(s, p);
        lemma_scan_digits_le(s, p);
        assert(scan_digits(s, p) == scan_digits(s, p + 1));
        lemma_scan_digits_ge(s, p + 1);
        assert(i <= p < d1 <= s.len());
        if d1 < s.len() && s[d1] == '.' && d1 + 1 < s.len() && is_digit(s[d1 + 1]) {
            lemma_scan_digits_le(s, d1 + 1);
            lemma_scan_digits_ge(s, d1 + 1);
        }
        assert(p2 >= 0);
        assert(d1 <= p2 <= s.len());
        if has_exp && q < s.len() && is_digit(s[q]) {
            lemma_scan_digits_le(s, q);
            lemma_scan_digits_ge(s, q);
        }
        assert(p3 >= 0);
        assert(p2 <= p3 <= s.len());
        assert(parse_number(s, i) == Some((JsonV::Num(s.subrange(i, p3)), p3)));
        let tok = s.subrange(i, p3);
        assert(tok.len() == p3 - i);
        // replay the parse on the token alone
        assert(tok[0] == s[i]);
        let p0 = if tok[0] == '-' {
            1int
        } else {
            0int
        };
        assert(p0 == p - i);
        assert(p0 < tok.len());
        assert(tok[p0] == s[p]);
        lemma_scan_digits_sub(s, i, p3, p);
        let d1t = scan_digits(tok, p0);
        assert(d1t == d1 - i);
        let fract = d1t < tok.len() && tok[d1t] == '.';
        if fract {
            assert(tok[d1t] == s[d1]);
            assert(d1 < s.len() && s[d1] == '.');
            assert(d1 + 1 < s.len() && is_digit(s[d1 + 1]));
            assert(p2 == scan_digits(s, d1 + 1));
            assert(d1 + 1 <= p2);
            assert(p2 <= p3);
            assert(d1t + 1 < tok.len() || d1t + 1 == tok.len());
            assert(d1 + 1 <= p3);
            if d1t + 1 < tok.len() {
                assert(tok[d1t + 1] == s[d1 + 1]);
            }
            assert(d1 < p2 <= p3);
            assert(d1t + 1 < tok.len() ==> is_digit(tok[d1t + 1]));
            assert(d1t + 1 <= tok.len());
            assert(d1 + 1 < s.len());
            lemma_scan_digits_sub(s, i, p3, d1 + 1);
            assert(scan_digits(tok, d1t + 1) == p2 - i);
        } else {
            if d1 < p3 {
                assert(tok[d1t] == s[d1]);
            }
        }
        let p2t = if fract {
            if d1t + 1 < tok.len() && is_digit(tok[d1t + 1]) {
                scan_digits(tok, d1t + 1)
            } else {
                -1
            }
        } else {
            d1t
        };
        assert(p2t == p2 - i) by {
            if fract {
                assert(d1 + 1 < s.len() && is_digit(s[d1 + 1]));
                if d1t + 1 < tok.len() {
                    assert(is_digit(tok[d1t + 1]));
                } else {
                    // the fractional digits run to the token's end
                    assert(d1t + 1 == tok.len());
                    assert(d1 + 1 == p3);
                    assert(scan_digits(s, d1 + 1) == scan_digits(s, d1 + 2));
                    lemma_scan_digits_ge(s, d1 + 2);
                    assert(p2 >= d1 + 2);
                    assert(false);
                }
            } else {
                if d1 < s.len() && s[d1] == '.' {
                    // a dot right after the integer digits lies past the token
                    assert(d1 >= p3);
                    assert(d1 == p3);
                    assert(p2 == d1);
                }
            }
        };
        let has_expt = p2t >= 0 && p2t < tok.len() && (tok[p2t] == 'e' || tok[p2t] == 'E');
        assert(has_expt == has_exp) by {
            if p2 < p3 {
                assert(tok[p2 - i] == s[p2]);
            }
            if has_exp {
                assert(p3 > p2);
            }
            if p2 == p3 {
                assert(!has_expt);
                assert(!has_exp || p3 > p2);
            }
        };
        let qt = if p2t + 1 < tok.len() && (tok[p2t + 1] == '+' || tok[p2t + 1] == '-') {
            p2t + 2
        } else {
            p2t + 1
        };
        let p3t = if has_expt {
            if qt < tok.len() && is_digit(tok[qt]) {
                scan_digits(tok, qt)
            } else {
                -1
            }
        } else {
            p2t
        };
        assert(p3t == p3 - i) by {
            if has_exp {
                assert(q < s.len() && is_digit(s[q]));
                assert(p3 == scan_digits(s, q));
                assert(q <= p3);
                assert(tok[p2t] == s[p2]);
                assert(qt == q - i) by {
                    if p2 + 1 < s.len() && (s[p2 + 1] == '+' || s[p2 + 1] == '-') {
                        assert(p2 + 1 < p3);
                        assert(tok[p2t + 1] == s[p2 + 1]);
                    } else {
                        if p2t + 1 < tok.len() {
                            assert(tok[p2t + 1] == s[p2 + 1]);
                        }
                    }
                };
                assert(scan_digits(s, q) == scan_digits(s, q + 1));
                lemma_scan_digits_ge(s, q + 1);
                assert(p3 >= q + 1);
                assert(qt < tok.len());
                assert(tok[qt] == s[q]);
                lemma_scan_digits_sub(s, i, p3, q);
            }
        };
        assert(parse_number(tok, 0) == Some((JsonV::Num(tok.subrange(0, p3t)), p3t)));
        assert(tok.subrange(0, p3t) =~= tok);
    }
}

/// A well-formed number token embedded in a larger text, with nothing that
/// could lengthen it right after, parses to exactly itself.
proof fn lemma_parse_number_embed(big: Seq<char>, i: int, tok: Seq<char>)
    requires
        num_token_wf(tok),
        match_at(big, i, tok),
        boundary_ok(big, i + tok.len()),
    ensures
        parse_number(big, i) == Some((JsonV::Num(tok), i + tok.len())),
{
    assert(parse_number(tok, 0) == Some((JsonV::Num(tok), tok.len() as int)));
    assert(tok.len() >= 1);
    let p0 = if tok[0] == '-' {
        1int
    } else {
        0int
    };
    let d1t = scan_digits(tok, p0);
    let p2t = if d1t < tok.len() && tok[d1t] == '.' {
        if d1t + 1 < tok.len() && is_digit(tok[d1t + 1]) {
            scan_digits(tok, d1t + 1)
        } else {
            -1
        }
    } else {
        d1t
    };
    let qt = if p2t + 1 < tok.len() && (tok[p2t + 1] == '+' || tok[p2t + 1] == '-') {
        p2t + 2
    } else {
        p2t + 1
    };
    let has_expt = p2t >= 0 && p2t < tok.len() && (tok[p2t] == 'e' || tok[p2t] == 'E');
    let p3t = if has_expt {
        if qt < tok.len() && is_digit(tok[qt]) {
            scan_digits(tok, qt)
        } else {
            -1
        }
    } else {
        p2t
    };
    assert(p0 < tok.len() && is_digit(tok[p0]));
    lemma_scan_digits_ge(tok, p0);
    lemma_scan_digits_le(tok, p0);
    assert(p2t >= 0);
    assert(p3t >= 0);
    assert(p3t == tok.len());
    assert(d1t <= tok.len());
    if d1t < tok.len() && tok[d1t] == '.' {
        lemma_scan_digits_ge(tok, d1t + 1);
        lemma_scan_digits_le(tok, d1t + 1);
    }
    if has_expt {
        lemma_scan_digits_ge(tok, qt);
        lemma_scan_digits_le(tok, qt);
    }
    // replay on the larger text
    assert(big[i] == tok[0]);
    assert(i < big.len());
    let pb = i + p0;
    assert(pb < big.len() && big[pb] == tok[p0]);
    lemma_scan_digits_embed(big, i, tok, p0);
    let d1b = scan_digits(big, pb);
    assert(d1b == i + d1t);
    let fracb = d1b < big.len() && big[d1b] == '.';
    let fract = d1t < tok.len() && tok[d1t] == '.';
    assert(fracb == fract) by {
        if d1t < tok.len() {
            assert(big[d1b] == tok[d1t]);
        } else {
            assert(d1b == i + tok.len());
            assert(d1b == big.len() || !extends_number(big[d1b]));
        }
    };
    if fract {
        assert(d1t + 1 < tok.len() && is_digit(tok[d1t + 1])) by {
            if !(d1t + 1 < tok.len() && is_digit(tok[d1t + 1])) {
                assert(p2t == -1);
            }
        };
        assert(big[d1b + 1] == tok[d1t + 1]);
        lemma_scan_digits_embed(big, i, tok, d1t + 1);
    }
    let p2b = if fracb {
        if d1b + 1 < big.len() && is_digit(big[d1b + 1]) {
            scan_digits(big, d1b + 1)
        } else {
            -1
        }
    } else {
        d1b
    };
    assert(p2b == i + p2t);
    let has_expb = p2b >= 0 && p2b < big.len() && (big[p2b] == 'e' || big[p2b] == 'E');
    assert(has_expb == has_expt) by {
        if p2t < tok.len() {
            assert(big[p2b] == tok[p2t]);
        } else {
            assert(p2b == i + tok.len());
            assert(p2b == big.len() || !extends_number(big[p2b]));
        }
    };
    let qb = if p2b + 1 < big.len() && (big[p2b + 1] == '+' || big[p2b + 1] == '-') {
        p2b + 2
    } else {
        p2b + 1
    };
    let p3b = if has_expb {
        if qb < big.len() && is_digit(big[qb]) {
            scan_digits(big, qb)
        } else {
            -1
        }
    } else {
        p2b
    };
    assert(p3b == i + tok.len()) by {
        if has_expt {
            assert(qt < tok.len() && is_digit(tok[qt])) by {
                if !(qt < tok.len() && is_digit(tok[qt])) {
                    assert(p3t == -1);
                }
            };
            assert(qb == i + qt) by {
                assert(p2t + 1 < tok.len() || p2t + 1 == tok.len());
                if p2t + 1 < tok.len() {
                    assert(big[p2b + 1] == tok[p2t + 1]);
                } else {
                    assert(qt == p2t + 1);
                    assert(qt == tok.len());
                    assert(false);
                }
            };
            assert(big[qb] == tok[qt]);
            lemma_scan_digits_embed(big, i, tok, qt);
        }
    };
    assert(parse_number(big, i) == Some((JsonV::Num(big.subrange(i, p3b)), p3b)));
    assert(big.subrange(i, i + tok.len()) =~= tok);
}

/// The escaped text of a string body, followed by a closing quote, parses
/// back to exactly that body.
proof fn lemma_parse_string_print(big: Seq<char>, i: int, body: Seq<char>)
    requires
        match_at(big, i, escape_str(body, body.len() as int) + seq!['"']),
    ensures
        parse_string(big, i) == Some(
            (body, i + escape_str(body, body.len() as int).len() + 1),
        ),
    decreases body.len(),
{
    let esc = escape_str(body, body.len() as int);
    if body.len() == 0 {
        assert(esc == Seq::<char>::empty());
        assert(big[i] == (esc + seq!['"'])[0]);
        assert(big[i] == '"');
        assert(parse_string(big, i) == Some((Seq::<char>::empty(), i + 1)));
    } else {
        let c = body[0];
        let e0 = escape_char(c);
        lemma_escape_str_cons(body, body.len() as int);
        let rest = body.subrange(1, body.len() as int);
        let escr = escape_str(rest, rest.len() as int);
        assert(esc == e0 + escr);
        assert forall|k: int| 0 <= k < escr.len() + 1 implies big[i + e0.len() + k] == (escr
            + seq!['"'])[k] by {
            assert(big[i + (e0.len() + k)] == (esc + seq!['"'])[e0.len() + k]);
        };
        assert(match_at(big, i + e0.len(), escr + seq!['"']));
        lemma_parse_string_print(big, i + e0.len(), rest);
        assert(parse_string(big, i + e0.len()) == Some(
            (rest, i + e0.len() + escr.len() + 1),
        ));
        assert forall|k: int| 0 <= k < e0.len() implies big[i + k] == e0[k] by {
            assert(big[i + k] == (esc + seq!['"'])[k]);
        };
        assert(seq![c] + rest =~= body);
        assert(big[i + 0] == e0[0]);
        let u = c as u32;
        if c == '"' || c == '\\' || c == '\n' || c == '\t' || c == '\r' || u == 8
            || u == 12 {
            assert(e0.len() == 2);
            assert(big[i + 1] == e0[1]);
            assert(big[i] == '\\');
            if u == 8 {
                assert(big[i + 1] == 'b');
                lemma_char_cast_roundtrip(c);
            } else if u == 12 {
                assert(big[i + 1] == 'f');
                lemma_char_cast_roundtrip(c);
            }
            assert(parse_string(big, i) == Some((body, i + esc.len() + 1)));
        } else if u < 32 {
            assert(e0 == seq!['\\', 'u', '0', '0', spec_hex_digit((u / 16) as int),
                spec_hex_digit((u % 16) as int)]);
            assert(big[i + 1] == e0[1]);
            assert(big[i + 2] == e0[2]);
            assert(big[i + 3] == e0[3]);
            assert(big[i + 4] == e0[4]);
            assert(big[i + 5] == e0[5]);
            assert(big[i] == '\\');
            assert(big[i + 1] == 'u');
            assert(big[i + 2] == '0');
            assert(big[i + 3] == '0');
            assert(big[i + 4] == spec_hex_digit((u / 16) as int));
            assert(big[i + 5] == spec_hex_digit((u % 16) as int));
            lemma_hex_digit_roundtrip(0);
            lemma_hex_digit_roundtrip((u / 16) as int);
            lemma_hex_digit_roundtrip((u % 16) as int);
            assert(i + 6 <= big.len());
            let code = 4096 * 0 + 256 * 0 + 16 * ((u / 16) as int) + ((u % 16) as int);
            assert(hex4(big, i + 2) == Some(code));
            assert(code == u as int);
            lemma_char_cast_roundtrip(c);
            assert(((code as u32) as char) == c);
            assert(parse_string(big, i) == Some((body, i + esc.len() + 1)));
        } else {
            assert(e0 == seq![c]);
            assert(big[i] == c);
            assert(c != '"' && c != '\\');
            assert(parse_string(big, i) == Some((body, i + esc.len() + 1)));
        }
    }
}

/// The first character of a printed value routes the parser into the right
/// branch: it is never whitespace nor a structural delimiter.
proof fn lemma_print_first_char(v: JsonV)
    requires
        wf_json(v),
    ensures
        print_json(v).len() >= 1,
        !is_ws(print_json(v)[0]),
        print_json(v)[0] != ']',
        print_json(v)[0] != '}',
        print_json(v)[0] != ',',
        print_json(v)[0] != ':',
{
    lemma_print_nonempty(v);
    match v {
        JsonV::Num(t) => {
            assert(parse_number(t, 0) is Some);
            assert(t[0] == '-' || is_digit(t[0]));
        },
        _ => {},
    }
}

/// A printed value embedded in a larger text, with nothing that could
/// lengthen a number token right after, parses back to exactly that value.
proof fn lemma_reparse_value(big: Seq<char>, i: int, v: JsonV)
    requires
        wf_json(v),
        match_at(big, i, print_json(v)),
        boundary_ok(big, i + print_json(v).len()),
    ensures
        parse_value(big, i) == Some((v, i + print_json(v).len())),
    decreases v, 0int,
{
    let pv = print_json(v);
    lemma_print_first_char(v);
    assert(big[i + 0] == pv[0]);
    match v {
        JsonV::Null => {
            assert(big[i + 1] == pv[1]);
            assert(big[i + 2] == pv[2]);
            assert(big[i + 3] == pv[3]);
            assert(parse_value(big, i) == Some((JsonV::Null, i + 4)));
        },
        JsonV::Bool(b) => {
            if b {
                assert(big[i + 1] == pv[1]);
                assert(big[i + 2] == pv[2]);
                assert(big[i + 3] == pv[3]);
                assert(parse_value(big, i) == Some((JsonV::Bool(true), i + 4)));
            } else {
                assert(big[i + 1] == pv[1]);
                assert(big[i + 2] == pv[2]);
                assert(big[i + 3] == pv[3]);
                assert(big[i + 4] == pv[4]);
                assert(parse_value(big, i) == Some((JsonV::Bool(false), i + 5)));
            }
        },
        JsonV::Num(t) => {
            lemma_parse_number_embed(big, i, t);
            assert(parse_number(t, 0) is Some);
            assert(t[0] == '-' || is_digit(t[0]));
            assert(parse_value(big, i) == parse_number(big, i));
        },
        JsonV::Str(t) => {
            let esc = escape_str(t, t.len() as int);
            assert(pv == seq!['"'] + esc + seq!['"']);
            assert(big[i] == '"');
            assert forall|k: int| 0 <= k < esc.len() + 1 implies big[i + 1 + k] == (esc
                + seq!['"'])[k] by {
                assert(big[i + (1 + k)] == pv[1 + k]);
            };
            assert(match_at(big, i + 1, esc + seq!['"']));
            lemma_parse_string_print(big, i + 1, t);
            assert(parse_value(big, i) == Some((JsonV::Str(t), i + pv.len())));
        },
        JsonV::Arr(items) => {
            let n = items.len() as int;
            let pi = print_items(items, n);
            assert(pv == seq!['['] + pi + seq![']']);
            assert(big[i] == '[');
            assert(big[i + 1 + pi.len() as int] == pv[1 + pi.len() as int]);
            assert(big[i + 1 + pi.len() as int] == ']');
            if n == 0 {
                assert(pi == Seq::<char>::empty());
                assert(big[i + 1] == ']');
                assert(items =~= Seq::<JsonV>::empty());
                assert(parse_arr_open(big, i + 1) == Some((JsonV::Arr(Seq::empty()), i + 2)));
                assert(parse_value(big, i) == Some((v, i + pv.len())));
            } else {
                assert forall|k: int| 0 <= k < pi.len() implies big[i + 1 + k] == pi[k] by {
                    assert(big[i + (1 + k)] == pv[1 + k]);
                };
                assert(match_at(big, i + 1, pi));
                assert forall|j: int| 0 <= j < items.len() implies wf_json(
                    #[trigger] items[j],
                ) by {
                    lemma_wf_items_index(items, n, j);
                };
                lemma_reparse_items(big, i + 1, items);
                // the first item's first character keeps the opener out of
                // the whitespace and empty-array branches
                if n >= 2 {
                    lemma_print_items_cons(items, n);
                } else {
                    assert(pi == print_json(items[0]));
                }
                lemma_print_first_char(items[0]);
                assert(big[i + 1] == pi[0]);
                assert(pi[0] == print_json(items[0])[0]);
                assert(parse_arr_open(big, i + 1) == Some(
                    (JsonV::Arr(items), i + 1 + pi.len() + 1),
                ));
                assert(parse_value(big, i) == Some((v, i + pv.len())));
            }
        },
        JsonV::Obj(members) => {
            let n = members.len() as int;
            let pm = print_members(members, n);
            assert(pv == seq!['{'] + pm + seq!['}']);
            assert(big[i] == '{');
            assert(big[i + 1 + pm.len() as int] == pv[1 + pm.len() as int]);
            assert(big[i + 1 + pm.len() as int] == '}');
            if n == 0 {
                assert(pm == Seq::<char>::empty());
                assert(big[i + 1] == '}');
                assert(members =~= Seq::<(Seq<char>, JsonV)>::empty());
                assert(parse_obj_open(big, i + 1) == Some((JsonV::Obj(Seq::empty()), i + 2)));
                assert(parse_value(big, i) == Some((v, i + pv.len())));
            } else {
                assert forall|k: int| 0 <= k < pm.len() implies big[i + 1 + k] == pm[k] by {
                    assert(big[i + (1 + k)] == pv[1 + k]);
                };
                assert(match_at(big, i + 1, pm));
                assert forall|j: int| 0 <= j < members.len() implies wf_json(
                    #[trigger] members[j].1,
                ) by {
                    lemma_wf_members_index(members, n, j);
                };
                lemma_reparse_members(big, i + 1, members);
                if n >= 2 {
                    lemma_print_members_cons(members, n);
                } else {
                    assert(pm == print_member(members[0].0, members[0].1));
                }
                assert(big[i + 1] == pm[0]);
                assert(pm[0] == '"');
                assert(parse_obj_open(big, i + 1) == Some(
                    (JsonV::Obj(members), i + 1 + pm.len() + 1),
                ));
                assert(parse_value(big, i) == Some((v, i + pv.len())));
            }
        },
    }
}

/// One or more printed items, followed by the closing bracket, parse back to
/// exactly those items.
proof fn lemma_reparse_items(big: Seq<char>, i: int, items: Seq<JsonV>)
    requires
        items.len() >= 1,
        forall|j: int| 0 <= j < items.len() ==> wf_json(#[trigger] items[j]),
        match_at(big, i, print_items(items, items.len() as int)),
        i + print_items(items, items.len() as int).len() < big.len(),
        big[i + print_items(items, items.len() as int).len()] == ']',
    ensures
        parse_items(big, i) == Some(
            (items, i + print_items(items, items.len() as int).len() + 1),
        ),
    decreases items, 1int,
{
    let n = items.len() as int;
    let pi = print_items(items, n);
    let p0 = print_json(items[0]);
    if n == 1 {
        assert(pi == p0);
        assert(boundary_ok(big, i + p0.len()));
        lemma_reparse_value(big, i, items[0]);
        let j = i + p0.len();
        assert(big[j] == ']');
        assert(parse_delim(big, j, ']') == Some((false, j + 1)));
        assert(seq![items[0]] =~= items);
        assert(parse_items(big, i) == Some((items, j + 1)));
    } else {
        lemma_print_items_cons(items, n);
        let rest = items.subrange(1, items.len() as int);
        let pr = print_items(rest, n - 1);
        assert(pi == p0 + seq![','] + pr);
        assert forall|k: int| 0 <= k < p0.len() implies big[i + k] == p0[k] by {
            assert(big[i + k] == pi[k]);
        };
        assert(match_at(big, i, p0));
        let j = i + p0.len();
        assert(big[j] == pi[p0.len() as int]);
        assert(big[j] == ',');
        assert(boundary_ok(big, j));
        lemma_reparse_value(big, i, items[0]);
        assert(parse_delim(big, j, ']') == Some((true, j + 1)));
        assert forall|k: int| 0 <= k < pr.len() implies big[j + 1 + k] == pr[k] by {
            assert(big[i + (p0.len() + 1 + k)] == pi[p0.len() + 1 + k]);
        };
        assert(match_at(big, j + 1, pr));
        assert(big[j + 1 + pr.len()] == ']') by {
            assert(j + 1 + pr.len() == i + pi.len());
        };
        lemma_reparse_items(big, j + 1, rest);
        assert(parse_items(big, j + 1) == Some((rest, j + 1 + pr.len() + 1)));
        assert(seq![items[0]] + rest =~= items);
        assert(parse_items(big, i) == Some((items, i + pi.len() + 1)));
    }
}

/// One or more printed members, followed by the closing brace, parse back to
/// exactly those members.
proof fn lemma_reparse_members(big: Seq<char>, i: int, members: Seq<(Seq<char>, JsonV)>)
    requires
        members.len() >= 1,
        forall|j: int| 0 <= j < members.len() ==> wf_json(#[trigger] members[j].1),
        match_at(big, i, print_members(members, members.len() as int)),
        i + print_members(members, members.len() as int).len() < big.len(),
        big[i + print_members(members, members.len() as int).len()] == '}',
    ensures
        parse_members(big, i) == Some(
            (members, i + print_members(members, members.len() as int).len() + 1),
        ),
    decreases members, 1int,
{
    let n = members.len() as int;
    let pm = print_members(members, n);
    let key = members[0].0;
    let val = members[0].1;
    let p0 = print_member(key, val);
    let esck = escape_str(key, key.len() as int);
    let pval = print_json(val);
    assert(p0 == seq!['"'] + esck + seq!['"', ':'] + pval);
    if n == 1 {
        assert(pm == p0);
    } else {
        lemma_print_members_cons(members, n);
    }
    assert forall|k: int| 0 <= k < p0.len() implies big[i + k] == p0[k] by {
        assert(big[i + k] == pm[k]);
    };
    assert(p0[0] == '"');
    assert(big[i + 0] == '"');
    assert forall|k: int| 0 <= k < esck.len() + 1 implies big[i + 1 + k] == (esck
        + seq!['"'])[k] by {
        assert(big[i + (1 + k)] == p0[1 + k]);
    };
    assert(match_at(big, i + 1, esck + seq!['"']));
    lemma_parse_string_print(big, i + 1, key);
    let jq = i + 1 + esck.len() + 1;
    assert(parse_string(big, i + 1) == Some((key, jq)));
    assert(big[jq] == p0[jq - i]);
    assert(big[jq] == ':');
    assert(parse_colon(big, jq) == Some(jq + 1));
    let jv = jq + 1;
    assert forall|k: int| 0 <= k < pval.len() implies big[jv + k] == pval[k] by {
        assert(big[i + (jv - i + k)] == p0[jv - i + k]);
    };
    assert(match_at(big, jv, pval));
    let jend = jv + pval.len();
    assert(jend == i + p0.len());
    if n == 1 {
        assert(big[jend] == '}');
        assert(boundary_ok(big, jend));
        lemma_reparse_value(big, jv, val);
        assert(parse_delim(big, jend, '}') == Some((false, jend + 1)));
        assert(seq![(key, val)] =~= members);
        assert(parse_members(big, i) == Some((members, i + pm.len() + 1)));
    } else {
        let rest = members.subrange(1, members.len() as int);
        let pr = print_members(rest, n - 1);
        assert(pm == p0 + seq![','] + pr);
        assert(big[jend] == pm[p0.len() as int]);
        assert(big[jend] == ',');
        assert(boundary_ok(big, jend));
        lemma_reparse_value(big, jv, val);
        assert(parse_delim(big, jend, '}') == Some((true, jend + 1)));
        assert forall|k: int| 0 <= k < pr.len() implies big[jend + 1 + k] == pr[k] by {
            assert(big[i + (p0.len() + 1 + k)] == pm[p0.len() + 1 + k]);
        };
        assert(match_at(big, jend + 1, pr));
        assert(big[jend + 1 + pr.len()] == '}') by {
            assert(jend + 1 + pr.len() == i + pm.len());
        };
        lemma_reparse_members(big, jend + 1, rest);
        assert(seq![(key, val)] + rest =~= members);
        assert(parse_members(big, i) == Some((members, i + pm.len() + 1)));
    }
}

/// Every value the parser yields is well formed: each of its number tokens,
/// parsed alone, is consumed exactly.
pub proof fn lemma_parse_value_wf(s: Seq<char>, i: int)
    ensures
        parse_value(s, i) matches Some(p) ==> wf_json(p.0),
    decreases s.len() - i, 1int,
{
    if 0 <= i && i < s.len() {
        let c = s[i];
        if is_ws(c) {
            lemma_parse_value_wf(s, i + 1);
        } else if c == '[' {
            lemma_parse_arr_open_wf(s, i + 1);
        } else if c == '{' {
            lemma_parse_obj_open_wf(s, i + 1);
        } else if c == '-' || is_digit(c) {
            lemma_parse_number_wf(s, i);
        }
    }
}

proof fn lemma_parse_arr_open_wf(s: Seq<char>, i: int)
    ensures
        parse_arr_open(s, i) matches Some(p) ==> wf_json(p.0),
    decreases s.len() - i, 3int,
{
    if 0 <= i && i < s.len() {
        if is_ws(s[i]) {
            lemma_parse_arr_open_wf(s, i + 1);
        } else if s[i] != ']' {
            lemma_parse_items_wf(s, i);
        }
    }
}

proof fn lemma_parse_items_wf(s: Seq<char>, i: int)
    ensures
        parse_items(s, i) matches Some(p) ==> wf_items(p.0, p.0.len() as int),
    decreases s.len() - i, 2int,
{
    lemma_parse_value_wf(s, i);
    if parse_items(s, i) is Some {
        let (v, j) = parse_value(s, i)->Some_0;
        let (more, k) = parse_delim(s, j, ']')->Some_0;
        if more {
            lemma_parse_items_wf(s, k);
            let rest = parse_items(s, k)->Some_0.0;
            lemma_wf_items_cons(v, rest, rest.len() as int + 1);
        } else {
            lemma_wf_items_cons(v, Seq::empty(), 1);
            assert(seq![v] + Seq::<JsonV>::empty() =~= seq![v]);
        }
    }
}

proof fn lemma_parse_obj_open_wf(s: Seq<char>, i: int)
    ensures
        parse_obj_open(s, i) matches Some(p) ==> wf_json(p.0),
    decreases s.len() - i, 3int,
{
    if 0 <= i && i < s.len() {
        if is_ws(s[i]) {
            lemma_parse_obj_open_wf(s, i + 1);
        } else if s[i] != '}' {
            lemma_parse_members_wf(s, i);
        }
    }
}

proof fn lemma_parse_members_wf(s: Seq<char>, i: int)
    ensures
        parse_members(s, i) matches Some(p) ==> wf_members(p.0, p.0.len() as int),
    decreases s.len() - i, 2int,
{
    if 0 <= i && i < s.len() {
        if is_ws(s[i]) {
            lemma_parse_members_wf(s, i + 1);
        } else if s[i] == '"' && parse_members(s, i) is Some {
            let (key, j) = parse_string(s, i + 1)->Some_0;
            let k = parse_colon(s, j)->Some_0;
            lemma_parse_value_wf(s, k);
            let (v, jv) = parse_value(s, k)->Some_0;
            let (more, kk) = parse_delim(s, jv, '}')->Some_0;
            if more {
                lemma_parse_members_wf(s, kk);
                let rest = parse_members(s, kk)->Some_0.0;
                lemma_wf_members_cons((key, v), rest, rest.len() as int + 1);
            } else {
                lemma_wf_members_cons((key, v), Seq::empty(), 1);
                assert(seq![(key, v)] + Seq::<(Seq<char>, JsonV)>::empty() =~= seq![(key, v)]);
            }
        }
    }
}

/// A whole parsed document is well formed.
pub proof fn lemma_parse_doc_wf(s: Seq<char>)
    ensures
        parse_doc(s) matches Some(v) ==> wf_json(v),
{
    lemma_parse_value_wf(s, 0);
}

/// The compact printed text of a well-formed value parses back to exactly
/// that value.
pub proof fn lemma_print_parse_roundtrip(v: JsonV)
    requires
        wf_json(v),
    ensures
        parse_doc(print_json(v)) == Some(v),
{
    let p = print_json(v);
    assert(match_at(p, 0, p));
    assert(boundary_ok(p, p.len() as int));
    lemma_reparse_value(p, 0, v);
    assert(all_ws_from(p, p.len() as int));
}

proof fn lemma_parse_lines_prints(ls: Seq<Seq<char>>, items: Seq<JsonV>, k: int)
    requires
        ls.len() == items.len() + 1,
        forall|i: int| 0 <= i < items.len() ==> ls[i] == print_json(#[trigger] items[i]),
        ls[items.len() as int] == Seq::<char>::empty(),
        forall|i: int| 0 <= i < items.len() ==> wf_json(#[trigger] items[i]),
        0 <= k <= items.len(),
    ensures
        parse_lines_from(ls, k) == Some(items.subrange(k, items.len() as int)),
    decreases items.len() - k,
{
    let n = items.len() as int;
    if k == n {
        assert(ls[k].len() == 0);
        assert(parse_lines_from(ls, k + 1) == Some(Seq::<JsonV>::empty()));
        assert(items.subrange(n, n) =~= Seq::<JsonV>::empty());
    } else {
        lemma_print_nonempty(items[k]);
        assert(ls[k].len() >= 1);
        lemma_print_parse_roundtrip(items[k]);
        assert(parse_doc(ls[k]) == Some(items[k]));
        lemma_parse_lines_prints(ls, items, k + 1);
        assert(seq![items[k]] + items.subrange(k + 1, n) =~= items.subrange(k, n));
    }
}

/// Re-parsing the normalizer's flattened record stream yields exactly the
/// array's elements, in order: none dropped, none added, none merged. This
/// holds for every text the parser accepts as an array document.
pub proof fn lemma_normalized_stream_reparses(s: Seq<char>)
    ensures
        (match parse_doc(s) {
            Some(JsonV::Arr(items)) => records_of(ndjson_of(items, items.len() as int))
                == Some(items),
            _ => true,
        }),
{
    lemma_parse_doc_clean(s);
    lemma_parse_doc_wf(s);
    match parse_doc(s) {
        Some(v) => match v {
            JsonV::Arr(items) => {
                let n = items.len() as int;
                assert forall|i: int| 0 <= i < n implies crate::laws::clean_json(
                    #[trigger] items[i],
                ) by {
                    lemma_clean_items_index(items, n, i);
                };
                assert forall|i: int| 0 <= i < n implies wf_json(#[trigger] items[i]) by {
                    lemma_wf_items_index(items, n, i);
                };
                lemma_array_normalization_lines(items, n);
                let ls = split_lines(ndjson_of(items, n));
                lemma_parse_lines_prints(ls, items, 0);
                assert(items.subrange(0, n) =~= items);
            },
            _ => {},
        },
        None => {},
    }
}

} // verus!
