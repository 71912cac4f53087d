use vstd::prelude::*;
use crate::decode::{
    coerce_cell, decode_all, decode_fields, decode_record, find_nl, lookup_from, parse_lines_from,
    records_of, split_from, split_lines,
};
use crate::json::{JsonV, escape_char, escape_str, print_json, print_items, print_member,
    print_members};
use crate::normalize::ndjson_of;
use crate::parse::{
    is_digit, parse_arr_open, parse_doc, parse_items, parse_members, parse_number, parse_obj_open,
    parse_value, scan_digits,
};
use crate::schema::{CellV, FieldV};

verus! {

/// A text with no newline occupies a single line.
pub open spec fn no_newline(s: Seq<char>) -> bool {
    forall|k: int| 0 <= k < s.len() ==> s[k] != '\n'
}

/// A JSON value every number token of which is newline-free. Every value a
/// parse can produce is of this kind: a number token holds only sign, digit,
/// dot and exponent characters.
pub open spec fn clean_json(v: JsonV) -> bool
    decreases v, 0int,
{
    match v {
        JsonV::Null => true,
        JsonV::Bool(_) => true,
        JsonV::Num(t) => no_newline(t),
        JsonV::Str(_) => true,
        JsonV::Arr(items) => clean_items(items, items.len() as int),
        JsonV::Obj(members) => clean_members(members, members.len() as int),
    }
}

pub open spec fn clean_items(items: Seq<JsonV>, n: int) -> bool
    decreases items, n,
{
    if n <= 0 || items.len() < n {
        true
    } else {
        clean_items(items, n - 1) && clean_json(items[n - 1])
    }
}

pub open spec fn clean_members(members: Seq<(Seq<char>, JsonV)>, n: int) -> bool
    decreases members, n,
{
    if n <= 0 || members.len() < n {
        true
    } else {
        clean_members(members, n - 1) && clean_json(members[n - 1].1)
    }
}

pub proof fn lemma_clean_items_index(items: Seq<JsonV>, n: int, i: int)
    requires
        clean_items(items, n),
        0 <= i < n <= items.len(),
    ensures
        clean_json(items[i]),
    decreases n,
{
    if i < n - 1 {
        lemma_clean_items_index(items, n - 1, i);
    }
}

pub proof fn lemma_clean_members_index(members: Seq<(Seq<char>, JsonV)>, n: int, i: int)
    requires
        clean_members(members, n),
        0 <= i < n <= members.len(),
    ensures
        clean_json(members[i].1),
    decreases n,
{
    if i < n - 1 {
        lemma_clean_members_index(members, n - 1, i);
    }
}

proof fn lemma_escape_char_no_newline(c: char)
    ensures
        no_newline(escape_char(c)),
{
}

proof fn lemma_escape_str_no_newline(t: Seq<char>, n: int)
    ensures
        no_newline(escape_str(t, n)),
    decreases n,
{
    if n > 0 && t.len() >= n {
        lemma_escape_str_no_newline(t, n - 1);
        lemma_escape_char_no_newline(t[n - 1]);
        assert forall|k: int|
            0 <= k < escape_str(t, n).len() implies escape_str(t, n)[k] != '\n' by {
            if k < escape_str(t, n - 1).len() {
            } else {
            }
        };
    }
}

/// The compact printed form of a clean JSON value holds no raw newline:
/// every newline of a string value is escaped.
pub proof fn lemma_print_no_newline(v: JsonV)
    requires
        clean_json(v),
    ensures
        no_newline(print_json(v)),
    decreases v, 0int,
{
    match v {
        JsonV::Null => {},
        JsonV::Bool(_) => {},
        JsonV::Num(_) => {},
        JsonV::Str(t) => {
            lemma_escape_str_no_newline(t, t.len() as int);
        },
        JsonV::Arr(items) => {
            lemma_print_items_no_newline(items, items.len() as int);
        },
        JsonV::Obj(members) => {
            lemma_print_members_no_newline(members, members.len() as int);
        },
    }
}

proof fn lemma_print_items_no_newline(items: Seq<JsonV>, n: int)
    requires
        clean_items(items, n),
    ensures
        no_newline(print_items(items, n)),
    decreases items, n,
{
    if n > 0 && items.len() >= n {
        if n == 1 {
            lemma_clean_items_index(items, 1, 0);
            lemma_print_no_newline(items[0]);
        } else {
            lemma_print_items_no_newline(items, n - 1);
            lemma_clean_items_index(items, n, n - 1);
            lemma_print_no_newline(items[n - 1]);
        }
    }
}

proof fn lemma_print_member_no_newline(key: Seq<char>, val: JsonV)
    requires
        clean_json(val),
    ensures
        no_newline(print_member(key, val)),
    decreases val, 1int,
{
    lemma_escape_str_no_newline(key, key.len() as int);
    lemma_print_no_newline(val);
}

proof fn lemma_print_members_no_newline(members: Seq<(Seq<char>, JsonV)>, n: int)
    requires
        clean_members(members, n),
    ensures
        no_newline(print_members(members, n)),
    decreases members, n,
{
    if n > 0 && members.len() >= n {
        if n == 1 {
            lemma_clean_members_index(members, 1, 0);
            lemma_print_member_no_newline(members[0].0, members[0].1);
        } else {
            lemma_print_members_no_newline(members, n - 1);
            lemma_clean_members_index(members, n, n - 1);
            lemma_print_member_no_newline(members[n - 1].0, members[n - 1].1);
        }
    }
}

proof fn lemma_find_nl_at(t: Seq<char>, a: int, b: int)
    requires
        0 <= a <= b < t.len(),
        forall|k: int| a <= k < b ==> t[k] != '\n',
        t[b] == '\n',
    ensures
        find_nl(t, a) == b,
    decreases b - a,
{
    if a < b {
        lemma_find_nl_at(t, a + 1, b);
    }
}

proof fn lemma_find_nl_le_pos(t: Seq<char>, a: int, b: int)
    requires
        0 <= a <= b < t.len(),
        t[b] == '\n',
    ensures
        find_nl(t, a) <= b,
    decreases b - a,
{
    if a < b && t[a] != '\n' {
        lemma_find_nl_le_pos(t, a + 1, b);
    }
}

proof fn lemma_find_nl_prefix(s: Seq<char>, tail: Seq<char>, i: int)
    requires
        0 <= i <= s.len(),
        find_nl(s, i) < s.len(),
    ensures
        find_nl(s + tail, i) == find_nl(s, i),
    decreases s.len() - i,
{
    crate::decode::lemma_find_nl(s, i);
    if i < s.len() {
        assert((s + tail)[i] == s[i]);
        if s[i] != '\n' {
            lemma_find_nl_prefix(s, tail, i + 1);
        }
    }
}

proof fn lemma_split_from_term(s: Seq<char>, p: Seq<char>, i: int)
    requires
        0 <= i <= s.len(),
        s.len() == 0 || s[s.len() - 1] == '\n',
        no_newline(p),
    ensures
        split_from(s, i).len() >= 1,
        split_from(s + p + seq!['\n'], i) == split_from(s, i).drop_last().push(p).push(
            Seq::<char>::empty(),
        ),
    decreases s.len() - i,
{
    let ext = s + p + seq!['\n'];
    crate::decode::lemma_find_nl(s, i);
    if i < s.len() {
        let n = find_nl(s, i);
        assert(n < s.len()) by {
            lemma_find_nl_le_pos(s, i, s.len() - 1);
        };
        lemma_find_nl_prefix(s, p + seq!['\n'], i);
        assert(s + (p + seq!['\n']) =~= ext);
        assert(find_nl(ext, i) == n);
        assert(ext.subrange(i, n) =~= s.subrange(i, n));
        lemma_split_from_term(s, p, n + 1);
        assert(split_from(ext, i) =~= split_from(s, i).drop_last().push(p).push(
            Seq::<char>::empty(),
        ));
    } else {
        assert(find_nl(s, s.len() as int) == s.len());
        assert(s.subrange(i, s.len() as int) =~= Seq::<char>::empty());
        assert(split_from(s, i) == seq![Seq::<char>::empty()]);
        let b: int = s.len() as int + p.len() as int;
        assert(ext[b] == '\n');
        assert forall|k: int| i <= k < b implies ext[k] != '\n' by {
            assert(ext[k] == p[k - s.len()]);
        };
        lemma_find_nl_at(ext, i, b);
        assert(ext.subrange(i, b) =~= p);
        assert(find_nl(ext, b + 1) == ext.len());
        assert(ext.subrange(b + 1, ext.len() as int) =~= Seq::<char>::empty());
        assert(split_from(ext, b + 1) == seq![Seq::<char>::empty()]);
        assert(split_from(ext, i) =~= split_from(s, i).drop_last().push(p).push(
            Seq::<char>::empty(),
        ));
    }
}

/// Appending one newline-terminated, newline-free record to a text that is
/// empty or itself newline-terminated turns the final empty line into that
/// record followed by a new final empty line.
pub proof fn lemma_split_term(s: Seq<char>, p: Seq<char>)
    requires
        s.len() == 0 || s[s.len() - 1] == '\n',
        no_newline(p),
    ensures
        split_lines(s).len() >= 1,
        split_lines(s + p + seq!['\n']) == split_lines(s).drop_last().push(p).push(
            Seq::<char>::empty(),
        ),
{
    lemma_split_from_term(s, p, 0);
}

/// The flattened text of `n` ends with the newline that terminated its last
/// record.
proof fn lemma_ndjson_terminated(items: Seq<JsonV>, n: int)
    ensures
        ndjson_of(items, n).len() == 0 || ndjson_of(items, n)[ndjson_of(items, n).len() - 1]
            == '\n',
{
    if 0 < n <= items.len() {
        let t = ndjson_of(items, n);
        assert(t == ndjson_of(items, n - 1) + print_json(items[n - 1]) + seq!['\n']);
        assert(t[t.len() - 1] == '\n');
    }
}

/// Normalizing an N-element JSON array yields exactly N newline-terminated
/// records, in the array's order: the flattened text splits into N lines
/// followed by one final empty line, and the i-th line is the compact
/// printed form of the i-th array element.
pub proof fn lemma_array_normalization_lines(items: Seq<JsonV>, n: int)
    requires
        0 <= n <= items.len(),
        forall|i: int| 0 <= i < n ==> clean_json(#[trigger] items[i]),
    ensures
        split_lines(ndjson_of(items, n)).len() == n + 1,
        forall|i: int|
            0 <= i < n ==> split_lines(ndjson_of(items, n))[i] == print_json(items[i]),
        split_lines(ndjson_of(items, n))[n] == Seq::<char>::empty(),
    decreases n,
{
    if n == 0 {
        let e = Seq::<char>::empty();
        assert(find_nl(e, 0) == 0);
        assert(e.subrange(0, 0) =~= e);
        assert(split_lines(e) == seq![e]);
    } else {
        lemma_array_normalization_lines(items, n - 1);
        lemma_print_no_newline(items[n - 1]);
        lemma_ndjson_terminated(items, n - 1);
        let s = ndjson_of(items, n - 1);
        let p = print_json(items[n - 1]);
        lemma_split_term(s, p);
        assert(ndjson_of(items, n) == s + p + seq!['\n']);
        let prev = split_lines(s);
        assert(split_lines(ndjson_of(items, n)) == prev.drop_last().push(p).push(
            Seq::<char>::empty(),
        ));
        assert forall|i: int|
            0 <= i < n implies split_lines(ndjson_of(items, n))[i] == print_json(items[i]) by {
            if i < n - 1 {
                assert(prev.drop_last()[i] == prev[i]);
            }
        };
    }
}

/// Decoding a record stream whose records each satisfy the schema yields one
/// row per record, in order, each cell being its field's coercion — never a
/// failure.
pub proof fn lemma_decode_all_total(fields: Seq<FieldV>, records: Seq<JsonV>, n: int)
    requires
        0 <= n <= records.len(),
        forall|i: int| 0 <= i < records.len() ==> (#[trigger] decode_record(
            fields,
            records[i],
        )) is Some,
    ensures
        decode_all(fields, records, n) is Some,
        decode_all(fields, records, n)->Some_0.len() == n,
        forall|i: int|
            0 <= i < n ==> decode_all(fields, records, n)->Some_0[i] == (#[trigger] decode_record(
                fields,
                records[i],
            ))->Some_0,
    decreases n,
{
    if n > 0 {
        lemma_decode_all_total(fields, records, n - 1);
        let prev = decode_all(fields, records, n - 1)->Some_0;
        let row = decode_record(fields, records[n - 1])->Some_0;
        assert(decode_all(fields, records, n)->Some_0 == prev.push(row));
        assert forall|i: int|
            0 <= i < n implies decode_all(fields, records, n)->Some_0[i]
            == (#[trigger] decode_record(fields, records[i]))->Some_0 by {
            if i < n - 1 {
                assert(prev.push(row)[i] == prev[i]);
            }
        };
    }
}

/// A record whose declared-non-nullable field is JSON null, or absent, never
/// decodes: the whole record fails, rather than the value being silently
/// defaulted.
pub proof fn lemma_non_nullable_null_fails(
    fields: Seq<FieldV>,
    members: Seq<(Seq<char>, JsonV)>,
    j: int,
)
    requires
        0 <= j < fields.len(),
        !fields[j].nullable,
        lookup_from(members, fields[j].name, 0) == Some(JsonV::Null) || lookup_from(
            members,
            fields[j].name,
            0,
        ) is None,
    ensures
        decode_record(fields, JsonV::Obj(members)) is None,
{
    assert(coerce_cell(
        fields[j].dtype,
        fields[j].nullable,
        lookup_from(members, fields[j].name, 0),
    ) is None);
    assert(decode_fields(fields, members, j + 1) is None);
    crate::decode::lemma_decode_fields_none(fields, members, j + 1, fields.len() as int);
}

/// An empty stream yields zero records and a zero-row decode, not a failure.
pub proof fn lemma_empty_stream_zero_rows(fields: Seq<FieldV>)
    ensures
        records_of(Seq::empty()) == Some(Seq::<JsonV>::empty()),
        decode_all(fields, Seq::empty(), 0) == Some(Seq::<Seq<CellV>>::empty()),
{
    let e = Seq::<char>::empty();
    assert(find_nl(e, 0) == 0);
    assert(e.subrange(0, 0) =~= e);
    assert(split_lines(e) == seq![e]);
    assert(parse_lines_from(seq![e], 1) == Some(Seq::<JsonV>::empty()));
    assert(parse_lines_from(seq![e], 0) == Some(Seq::<JsonV>::empty()));
}

proof fn lemma_scan_digits_le(s: Seq<char>, i: int)
    requires
        0 <= i <= s.len(),
    ensures
        scan_digits(s, i) <= s.len(),
    decreases s.len() - i,
{
    if i < s.len() && is_digit(s[i]) {
        lemma_scan_digits_le(s, i + 1);
    }
}

proof fn lemma_scan_digits_region(s: Seq<char>, i: int, k: int)
    requires
        0 <= i <= k < scan_digits(s, i),
    ensures
        is_digit(s[k]),
    decreases k - i,
{
    if k > i {
        lemma_scan_digits_region(s, i + 1, k);
    }
}

proof fn lemma_clean_items_cons(v: JsonV, rest: Seq<JsonV>, n: int)
    requires
        1 <= n <= rest.len() + 1,
    ensures
        clean_items(seq![v] + rest, n) == (clean_json(v) && clean_items(rest, n - 1)),
    decreases n,
{
    let c = seq![v] + rest;
    assert(c[0] == v);
    if n == 1 {
        assert(clean_items(c, 1) == (clean_items(c, 0) && clean_json(c[0])));
    } else {
        lemma_clean_items_cons(v, rest, n - 1);
        assert(c[n - 1] == rest[n - 2]);
    }
}

proof fn lemma_clean_members_cons(
    kv: (Seq<char>, JsonV),
    rest: Seq<(Seq<char>, JsonV)>,
    n: int,
)
    requires
        1 <= n <= rest.len() + 1,
    ensures
        clean_members(seq![kv] + rest, n) == (clean_json(kv.1) && clean_members(rest, n - 1)),
    decreases n,
{
    let c = seq![kv] + rest;
    assert(c[0] == kv);
    if n == 1 {
        assert(clean_members(c, 1) == (clean_members(c, 0) && clean_json(c[0].1)));
    } else {
        lemma_clean_members_cons(kv, rest, n - 1);
        assert(c[n - 1] == rest[n - 2]);
    }
}

proof fn lemma_parse_number_clean(s: Seq<char>, i: int)
    ensures
        parse_number(s, i) matches Some(p) ==> clean_json(p.0),
{
    if parse_number(s, i) is Some {
        let p = if s[i] == '-' {
            i + 1
        } else {
            i
        };
        let d1 = scan_digits(s, p);
        let p2 = if d1 < s.len() && s[d1] == '.' {
            if d1 + 1 < s.len() && is_digit(s[d1 + 1]) {
                scan_digits(s, d1 + 1)
            } else {
                -1
            }
        } else {
            d1
        };
        let q = if p2 + 1 < s.len() && (s[p2 + 1] == '+' || s[p2 + 1] == '-') {
            p2 + 2
        } else {
            p2 + 1
        };
        let has_exp = p2 >= 0 && p2 < s.len() && (s[p2] == 'e' || s[p2] == 'E');
        let p3 = if has_exp {
            if q < s.len() && is_digit(s[q]) {
                scan_digits(s, q)
            } else {
                -1
            }
        } else {
            p2
        };
        let token = parse_number(s, i)->Some_0.0->Num_0;
        crate::parse::lemma_scan_digits_ge(s, p);
        assert(i <= p <= d1);
        assert(0 <= i && i < s.len());
        assert(p < s.len() && is_digit(s[p]));
        assert(p2 >= 0);
        assert(p3 >= 0);
        lemma_scan_digits_le(s, p);
        assert(d1 <= s.len());
        if d1 < s.len() && s[d1] == '.' && d1 + 1 < s.len() && is_digit(s[d1 + 1]) {
            lemma_scan_digits_le(s, d1 + 1);
            crate::parse::lemma_scan_digits_ge(s, d1 + 1);
        }
        assert(i <= p2 <= s.len());
        if has_exp && q < s.len() && is_digit(s[q]) {
            lemma_scan_digits_le(s, q);
            crate::parse::lemma_scan_digits_ge(s, q);
        }
        assert(i <= p3 <= s.len());
        assert(parse_number(s, i) == Some((JsonV::Num(s.subrange(i, p3)), p3)));
        assert(token == s.subrange(i, p3));
        assert(token.len() == p3 - i);
        assert forall|k: int| 0 <= k < token.len() implies token[k] != '\n' by {
            assert(0 <= k < p3 - i);
            let m = i + k;
            assert(token[k] == s.subrange(i, p3)[k]);
            assert(token[k] == s[m]);
            assert(i <= m < p3);
            if m == i && s[i] == '-' {
            } else if m < d1 {
                lemma_scan_digits_region(s, p, m);
            } else if m == d1 && p2 != d1 && m < p3 && s[d1] == '.' {
            } else if d1 < m && m < p2 {
                lemma_scan_digits_region(s, d1 + 1, m);
            } else if m == p2 && m < p3 {
                assert(s[p2] == 'e' || s[p2] == 'E');
            } else if p2 < m && m < q {
                assert(s[m] == '+' || s[m] == '-');
            } else if q <= m && m < p3 {
                lemma_scan_digits_region(s, q, m);
            } else {
                assert(false);
            }
        };
    }
}

/// Every value the parser yields is clean: a parsed number token holds only
/// sign, digit, dot and exponent characters, never a newline.
pub proof fn lemma_parse_value_clean(s: Seq<char>, i: int)
    ensures
        parse_value(s, i) matches Some(p) ==> clean_json(p.0),
    decreases s.len() - i, 1int,
{
    if 0 <= i && i < s.len() {
        let c = s[i];
        if crate::parse::is_ws(c) {
            lemma_parse_value_clean(s, i + 1);
        } else if c == '[' {
            lemma_parse_arr_open_clean(s, i + 1);
        } else if c == '{' {
            lemma_parse_obj_open_clean(s, i + 1);
        } else if c == '-' || is_digit(c) {
            lemma_parse_number_clean(s, i);
        }
    }
}

proof fn lemma_parse_arr_open_clean(s: Seq<char>, i: int)
    ensures
        parse_arr_open(s, i) matches Some(p) ==> clean_json(p.0),
    decreases s.len() - i, 3int,
{
    if 0 <= i && i < s.len() {
        if crate::parse::is_ws(s[i]) {
            lemma_parse_arr_open_clean(s, i + 1);
        } else if s[i] != ']' {
            lemma_parse_items_clean(s, i);
        }
    }
}

proof fn lemma_parse_items_clean(s: Seq<char>, i: int)
    ensures
        parse_items(s, i) matches Some(p) ==> clean_items(p.0, p.0.len() as int),
    decreases s.len() - i, 2int,
{
    lemma_parse_value_clean(s, i);
    if parse_items(s, i) is Some {
        let (v, j) = parse_value(s, i)->Some_0;
        let (more, k) = crate::parse::parse_delim(s, j, ']')->Some_0;
        if more {
            lemma_parse_items_clean(s, k);
            let rest = parse_items(s, k)->Some_0.0;
            lemma_clean_items_cons(v, rest, rest.len() as int + 1);
        } else {
            lemma_clean_items_cons(v, Seq::empty(), 1);
            assert(seq![v] + Seq::<JsonV>::empty() =~= seq![v]);
        }
    }
}

proof fn lemma_parse_obj_open_clean(s: Seq<char>, i: int)
    ensures
        parse_obj_open(s, i) matches Some(p) ==> clean_json(p.0),
    decreases s.len() - i, 3int,
{
    if 0 <= i && i < s.len() {
        if crate::parse::is_ws(s[i]) {
            lemma_parse_obj_open_clean(s, i + 1);
        } else if s[i] != '}' {
            lemma_parse_members_clean(s, i);
        }
    }
}

proof fn lemma_parse_members_clean(s: Seq<char>, i: int)
    ensures
        parse_members(s, i) matches Some(p) ==> clean_members(p.0, p.0.len() as int),
    decreases s.len() - i, 2int,
{
    if 0 <= i && i < s.len() {
        if crate::parse::is_ws(s[i]) {
            lemma_parse_members_clean(s, i + 1);
        } else if s[i] == '"' && parse_members(s, i) is Some {
            let (key, j) = crate::parse::parse_string(s, i + 1)->Some_0;
            let k = crate::parse::parse_colon(s, j)->Some_0;
            lemma_parse_value_clean(s, k);
            let (v, jv) = parse_value(s, k)->Some_0;
            let (more, kk) = crate::parse::parse_delim(s, jv, '}')->Some_0;
            if more {
                lemma_parse_members_clean(s, kk);
                let rest = parse_members(s, kk)->Some_0.0;
                lemma_clean_members_cons((key, v), rest, rest.len() as int + 1);
            } else {
                lemma_clean_members_cons((key, v), Seq::empty(), 1);
                assert(seq![(key, v)] + Seq::<(Seq<char>, JsonV)>::empty() =~= seq![(key, v)]);
            }
        }
    }
}

/// A whole parsed document is clean.
pub proof fn lemma_parse_doc_clean(s: Seq<char>)
    ensures
        parse_doc(s) matches Some(v) ==> clean_json(v),
{
    lemma_parse_value_clean(s, 0);
}

/// The normalizer's flattened text of any parsed array document holds one
/// newline-terminated line per array element, in the array's order — the
/// unconditional form of the line-structure law, for every text the parser
/// accepts.
pub proof fn lemma_normalizer_emits_one_line_per_item(s: Seq<char>)
    ensures
        (match parse_doc(s) {
            Some(JsonV::Arr(items)) => split_lines(ndjson_of(items, items.len() as int)).len()
                == items.len() + 1 && (forall|i: int|
                0 <= i < items.len() ==> split_lines(ndjson_of(items, items.len() as int))[i]
                    == print_json(#[trigger] items[i])) && split_lines(
                ndjson_of(items, items.len() as int),
            )[items.len() as int] == Seq::<char>::empty(),
            _ => true,
        }),
{
    lemma_parse_doc_clean(s);
    match parse_doc(s) {
        Some(v) => match v {
            JsonV::Arr(items) => {
                assert forall|i: int| 0 <= i < items.len() implies clean_json(
                    #[trigger] items[i],
                ) by {
                    lemma_clean_items_index(items, items.len() as int, i);
                };
                lemma_array_normalization_lines(items, items.len() as int);
            },
            _ => {},
        },
        None => {},
    }
}

} // verus!
