use vstd::prelude::*;

verus! {

broadcast use vstd::seq::axiom_seq_index_decreases;

/// A JSON value as the record stream carries it. A number is kept as the
/// exact text of its token, so no floating-point value is ever materialized;
/// a string holds its decoded characters.
#[derive(Debug)]
pub enum Json {
    Null,
    Bool(bool),
    Num(Vec<char>),
    Str(Vec<char>),
    Arr(Vec<Json>),
    Obj(Vec<(Vec<char>, Json)>),
}

/// Mathematical image of a `Json` value.
#[verifier::ext_equal]
pub enum JsonV {
    Null,
    Bool(bool),
    Num(Seq<char>),
    Str(Seq<char>),
    Arr(Seq<JsonV>),
    Obj(Seq<(Seq<char>, JsonV)>),
}

pub open spec fn jview(j: Json) -> JsonV
    decreases j,
{
    match j {
        Json::Null => JsonV::Null,
        Json::Bool(b) => JsonV::Bool(b),
        Json::Num(t) => JsonV::Num(t@),
        Json::Str(t) => JsonV::Str(t@),
        Json::Arr(v) => JsonV::Arr(jview_arr(v@, v@.len() as int)),
        Json::Obj(m) => JsonV::Obj(jview_obj(m@, m@.len() as int)),
    }
}

/// The images of the first `n` elements.
pub open spec fn jview_arr(s: Seq<Json>, n: int) -> Seq<JsonV>
    decreases s, n,
{
    if n <= 0 || s.len() < n {
        Seq::empty()
    } else {
        jview_arr(s, n - 1).push(jview(s[n - 1]))
    }
}

/// The images of the first `n` key-value pairs.
pub open spec fn jview_obj(s: Seq<(Vec<char>, Json)>, n: int) -> Seq<(Seq<char>, JsonV)>
    decreases s, n,
{
    if n <= 0 || s.len() < n {
        Seq::empty()
    } else {
        jview_obj(s, n - 1).push((s[n - 1].0@, jview(s[n - 1].1)))
    }
}

impl View for Json {
    type V = JsonV;

    open spec fn view(&self) -> JsonV {
        jview(*self)
    }
}

impl DeepView for Json {
    type V = JsonV;

    open spec fn deep_view(&self) -> JsonV {
        jview(*self)
    }
}

pub proof fn lemma_jview_arr(s: Seq<Json>, n: int)
    requires
        0 <= n <= s.len(),
    ensures
        jview_arr(s, n).len() == n,
        forall|i: int| 0 <= i < n ==> jview_arr(s, n)[i] == jview(s[i]),
    decreases n,
{
    if n > 0 {
        lemma_jview_arr(s, n - 1);
    }
}

pub proof fn lemma_jview_obj(s: Seq<(Vec<char>, Json)>, n: int)
    requires
        0 <= n <= s.len(),
    ensures
        jview_obj(s, n).len() == n,
        forall|i: int|
            0 <= i < n ==> jview_obj(s, n)[i] == (s[i].0@, jview(s[i].1)),
    decreases n,
{
    if n > 0 {
        lemma_jview_obj(s, n - 1);
    }
}

/// The hexadecimal digit character for a value below 16.
pub open spec fn spec_hex_digit(d: int) -> char {
    if d == 0 { '0' } else if d == 1 { '1' } else if d == 2 { '2' } else if d == 3 { '3' }
    else if d == 4 { '4' } else if d == 5 { '5' } else if d == 6 { '6' } else if d == 7 { '7' }
    else if d == 8 { '8' } else if d == 9 { '9' } else if d == 10 { 'a' } else if d == 11 { 'b' }
    else if d == 12 { 'c' } else if d == 13 { 'd' } else if d == 14 { 'e' } else { 'f' }
}

/// How one character of a string value is printed: the two-character escapes
/// of JSON, a `\u00XX` escape for the remaining control characters, and the
/// character itself otherwise.
pub open spec fn escape_char(c: char) -> Seq<char> {
    if c == '"' {
        seq!['\\', '"']
    } else if c == '\\' {
        seq!['\\', '\\']
    } else if c == '\n' {
        seq!['\\', 'n']
    } else if c == '\r' {
        seq!['\\', 'r']
    } else if c == '\t' {
        seq!['\\', 't']
    } else if (c as u32) == 8 {
        seq!['\\', 'b']
    } else if (c as u32) == 12 {
        seq!['\\', 'f']
    } else if (c as u32) < 32 {
        seq!['\\', 'u', '0', '0', spec_hex_digit(((c as u32) / 16) as int), spec_hex_digit(((c as u32) % 16) as int)]
    } else {
        seq![c]
    }
}

/// The printed form of the first `n` characters of a string value.
pub open spec fn escape_str(t: Seq<char>, n: int) -> Seq<char>
    decreases n,
{
    if n <= 0 || t.len() < n {
        Seq::empty()
    } else {
        escape_str(t, n - 1) + escape_char(t[n - 1])
    }
}

/// The compact printed text of a JSON value: no whitespace outside strings,
/// array and object members in order, comma-separated.
pub open spec fn print_json(v: JsonV) -> Seq<char>
    decreases v, 0int,
{
    match v {
        JsonV::Null => seq!['n', 'u', 'l', 'l'],
        JsonV::Bool(b) => if b {
            seq!['t', 'r', 'u', 'e']
        } else {
            seq!['f', 'a', 'l', 's', 'e']
        },
        JsonV::Num(t) => t,
        JsonV::Str(t) => seq!['"'] + escape_str(t, t.len() as int) + seq!['"'],
        JsonV::Arr(items) => seq!['['] + print_items(items, items.len() as int) + seq![']'],
        JsonV::Obj(members) => seq!['{'] + print_members(members, members.len() as int)
            + seq!['}'],
    }
}

/// The printed form of the first `n` array items, comma-separated.
pub open spec fn print_items(items: Seq<JsonV>, n: int) -> Seq<char>
    decreases items, n,
{
    if n <= 0 || items.len() < n {
        Seq::empty()
    } else if n == 1 {
        print_json(items[0])
    } else {
        print_items(items, n - 1) + seq![','] + print_json(items[n - 1])
    }
}

/// The printed form of one object member.
pub open spec fn print_member(key: Seq<char>, val: JsonV) -> Seq<char>
    decreases val, 1int,
{
    seq!['"'] + escape_str(key, key.len() as int) + seq!['"', ':'] + print_json(val)
}

/// The printed form of the first `n` object members, comma-separated.
pub open spec fn print_members(members: Seq<(Seq<char>, JsonV)>, n: int) -> Seq<char>
    decreases members, n,
{
    if n <= 0 || members.len() < n {
        Seq::empty()
    } else if n == 1 {
        print_member(members[0].0, members[0].1)
    } else {
        print_members(members, n - 1) + seq![','] + print_member(members[n - 1].0, members[n - 1].1)
    }
}

fn hex_digit(d: u32) -> (c: char)
    requires
        d < 16,
    ensures
        c == spec_hex_digit(d as int),
{
    if d == 0 { '0' } else if d == 1 { '1' } else if d == 2 { '2' } else if d == 3 { '3' }
    else if d == 4 { '4' } else if d == 5 { '5' } else if d == 6 { '6' } else if d == 7 { '7' }
    else if d == 8 { '8' } else if d == 9 { '9' } else if d == 10 { 'a' } else if d == 11 { 'b' }
    else if d == 12 { 'c' } else if d == 13 { 'd' } else if d == 14 { 'e' } else { 'f' }
}

/// Appends the printed form of one string-value character.
fn push_escaped(out: &mut Vec<char>, c: char)
    ensures
        final(out)@ == old(out)@ + escape_char(c),
{
    if c == '"' {
        out.push('\\');
        out.push('"');
    } else if c == '\\' {
        out.push('\\');
        out.push('\\');
    } else if c == '\n' {
        out.push('\\');
        out.push('n');
    } else if c == '\r' {
        out.push('\\');
        out.push('r');
    } else if c == '\t' {
        out.push('\\');
        out.push('t');
    } else if (c as u32) == 8 {
        out.push('\\');
        out.push('b');
    } else if (c as u32) == 12 {
        out.push('\\');
        out.push('f');
    } else if (c as u32) < 32 {
        out.push('\\');
        out.push('u');
        out.push('0');
        out.push('0');
        out.push(hex_digit((c as u32) / 16));
        out.push(hex_digit((c as u32) % 16));
    } else {
        out.push(c);
    }
    assert(out@ =~= old(out)@ + escape_char(c));
}

/// Appends the printed form of a whole string value, quotes included.
fn push_quoted(out: &mut Vec<char>, t: &Vec<char>)
    ensures
        final(out)@ == old(out)@ + seq!['"'] + escape_str(t@, t@.len() as int) + seq!['"'],
{
    out.push('"');
    let ghost base = out@;
    let mut k: usize = 0;
    while k < t.len()
        invariant
            0 <= k <= t@.len(),
            out@ == base + escape_str(t@, k as int),
        decreases t@.len() - k,
    {
        push_escaped(out, t[k]);
        k = k + 1;
    }
    out.push('"');
    assert(out@ =~= old(out)@ + seq!['"'] + escape_str(t@, t@.len() as int) + seq!['"']);
}

/// Renders a JSON value as its compact text.
pub fn to_text(j: &Json) -> (r: Vec<char>)
    ensures
        r@ == print_json(j@),
    decreases *j,
{
    match j {
        Json::Null => {
            let mut out: Vec<char> = Vec::new();
            out.push('n');
            out.push('u');
            out.push('l');
            out.push('l');
            assert(out@ =~= print_json(j@));
            out
        },
        Json::Bool(b) => {
            let mut out: Vec<char> = Vec::new();
            if *b {
                out.push('t');
                out.push('r');
                out.push('u');
                out.push('e');
            } else {
                out.push('f');
                out.push('a');
                out.push('l');
                out.push('s');
                out.push('e');
            }
            assert(out@ =~= print_json(j@));
            out
        },
        Json::Num(t) => {
            let mut out: Vec<char> = Vec::new();
            let mut k: usize = 0;
            while k < t.len()
                invariant
                    0 <= k <= t@.len(),
                    out@ == t@.subrange(0, k as int),
                decreases t@.len() - k,
            {
                out.push(t[k]);
                assert(out@ =~= t@.subrange(0, k + 1 as int));
                k = k + 1;
            }
            assert(out@ =~= t@);
            out
        },
        Json::Str(t) => {
            let mut out: Vec<char> = Vec::new();
            push_quoted(&mut out, t);
            assert(out@ =~= print_json(j@));
            out
        },
        Json::Arr(v) => {
            let ghost items = jview_arr(v@, v@.len() as int);
            proof {
                lemma_jview_arr(v@, v@.len() as int);
            }
            let mut out: Vec<char> = Vec::new();
            out.push('[');
            let mut k: usize = 0;
            while k < v.len()
                invariant
                    *j == Json::Arr(*v),
                    0 <= k <= v@.len(),
                    items == jview_arr(v@, v@.len() as int),
                    items.len() == v@.len(),
                    forall|i: int| 0 <= i < v@.len() ==> items[i] == jview(v@[i]),
                    out@ == seq!['['] + print_items(items, k as int),
                decreases v@.len() - k,
            {
                if k > 0 {
                    out.push(',');
                }
                proof {
                    assert(*j == Json::Arr(*v));
                    assert(j->Arr_0 == *v);
                    assert(decreases_to!(*j => j->Arr_0));
                    assert(decreases_to!(*j => *v));
                    assert(decreases_to!(*v => v@));
                    assert(decreases_to!(v@ => v@[k as int]));
                    assert(decreases_to!(*j => v@[k as int]));
                }
                let mut piece = to_text(&v[k]);
                out.append(&mut piece);
                assert(out@ =~= seq!['['] + print_items(items, k + 1 as int));
                k = k + 1;
            }
            out.push(']');
            assert(out@ =~= print_json(j@));
            out
        },
        Json::Obj(m) => {
            let ghost members = jview_obj(m@, m@.len() as int);
            proof {
                lemma_jview_obj(m@, m@.len() as int);
            }
            let mut out: Vec<char> = Vec::new();
            out.push('{');
            let mut k: usize = 0;
            while k < m.len()
                invariant
                    *j == Json::Obj(*m),
                    0 <= k <= m@.len(),
                    members == jview_obj(m@, m@.len() as int),
                    members.len() == m@.len(),
                    forall|i: int|
                        0 <= i < m@.len() ==> members[i] == (m@[i].0@, jview(m@[i].1)),
                    out@ == seq!['{'] + print_members(members, k as int),
                decreases m@.len() - k,
            {
                if k > 0 {
                    out.push(',');
                }
                push_quoted(&mut out, &m[k].0);
                out.push(':');
                proof {
                    assert(*j == Json::Obj(*m));
                    assert(j->Obj_0 == *m);
                    assert(decreases_to!(*j => j->Obj_0));
                    assert(decreases_to!(*j => *m));
                    assert(decreases_to!(*m => m@));
                    assert(decreases_to!(m@ => m@[k as int]));
                    assert(decreases_to!(m@[k as int] => m@[k as int].1));
                    assert(decreases_to!(*j => m@[k as int].1));
                }
                let mut piece = to_text(&m[k].1);
                assert(members[k as int] == (m@[k as int].0@, jview(m@[k as int].1)));
                assert(piece@ == print_json(members[k as int].1));
                out.append(&mut piece);
                assert(print_member(members[k as int].0, members[k as int].1) == seq!['"']
                    + escape_str(members[k as int].0, members[k as int].0.len() as int)
                    + seq!['"', ':'] + print_json(members[k as int].1));
                assert(out@ =~= seq!['{'] + print_members(members, k + 1 as int));
                k = k + 1;
            }
            out.push('}');
            assert(out@ =~= print_json(j@));
            out
        },
    }
}

} // verus!
