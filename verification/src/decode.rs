use vstd::prelude::*;
use crate::errors::ScanError;
use crate::json::{Json, JsonV, jview, jview_arr, jview_obj, lemma_jview_arr, lemma_jview_obj};
use crate::parse::{is_digit, parse_doc, parse_chars};
use crate::schema::{Batch, Cell, CellV, DType, FieldSpec, FieldV, cell_ok};
use crate::text::{chars_to_string, str_to_chars};

verus! {

/// The index of the first newline at or after `i`, or the text's length.
pub open spec fn find_nl(s: Seq<char>, i: int) -> int
    decreases s.len() - i,
{
    if i < 0 || i >= s.len() {
        s.len() as int
    } else if s[i] == '\n' {
        i
    } else {
        find_nl(s, i + 1)
    }
}

pub proof fn lemma_find_nl(s: Seq<char>, i: int)
    requires
        0 <= i <= s.len(),
    ensures
        i <= find_nl(s, i) <= s.len(),
    decreases s.len() - i,
{
    if i < s.len() && s[i] != '\n' {
        lemma_find_nl(s, i + 1);
    }
}

/// The lines of the text from `i` on, split on newlines. A trailing newline
/// contributes one final empty line.
pub open spec fn split_from(s: Seq<char>, i: int) -> Seq<Seq<char>>
    decreases s.len() - i,
{
    if i < 0 || i > s.len() {
        Seq::empty()
    } else {
        let n = find_nl(s, i);
        if i <= n && n < s.len() {
            seq![s.subrange(i, n)] + split_from(s, n + 1)
        } else {
            seq![s.subrange(i, s.len() as int)]
        }
    }
}

pub open spec fn split_lines(s: Seq<char>) -> Seq<Seq<char>> {
    split_from(s, 0)
}

/// The records held by the lines from `k` on: empty lines are skipped, and
/// each remaining line must be one well-formed JSON document.
pub open spec fn parse_lines_from(ls: Seq<Seq<char>>, k: int) -> Option<Seq<JsonV>>
    decreases ls.len() - k,
{
    if k < 0 || k >= ls.len() {
        Some(Seq::empty())
    } else if ls[k].len() == 0 {
        parse_lines_from(ls, k + 1)
    } else {
        match (parse_doc(ls[k]), parse_lines_from(ls, k + 1)) {
            (Some(v), Some(rest)) => Some(seq![v] + rest),
            _ => None,
        }
    }
}

/// The records of a normalized stream: its non-empty lines, each parsed as
/// one JSON document.
pub open spec fn records_of(s: Seq<char>) -> Option<Seq<JsonV>> {
    parse_lines_from(split_lines(s), 0)
}

/// The first value in the members at or after `k` whose key is `name`.
pub open spec fn lookup_from(
    members: Seq<(Seq<char>, JsonV)>,
    name: Seq<char>,
    k: int,
) -> Option<JsonV>
    decreases members.len() - k,
{
    if k < 0 || k >= members.len() {
        None
    } else if members[k].0 == name {
        Some(members[k].1)
    } else {
        lookup_from(members, name, k + 1)
    }
}

pub open spec fn all_digits(t: Seq<char>, a: int, b: int) -> bool {
    forall|k: int| a <= k < b ==> is_digit(#[trigger] t[k])
}

/// The numeric value of the decimal digits in `[a, b)`.
pub open spec fn digits_val(t: Seq<char>, a: int, b: int) -> int
    decreases b - a,
{
    if b <= a {
        0
    } else {
        digits_val(t, a, b - 1) * 10 + ((t[b - 1] as u32) - 48)
    }
}

/// Whether the token is an optionally signed run of decimal digits.
pub open spec fn is_int_token(t: Seq<char>) -> bool {
    if t.len() == 0 {
        false
    } else if t[0] == '-' {
        t.len() >= 2 && all_digits(t, 1, t.len() as int)
    } else {
        all_digits(t, 0, t.len() as int)
    }
}

/// The integer an integer token denotes.
pub open spec fn int_token_value(t: Seq<char>) -> int {
    if t.len() > 0 && t[0] == '-' {
        -digits_val(t, 1, t.len() as int)
    } else {
        digits_val(t, 0, t.len() as int)
    }
}

pub proof fn lemma_digits_val_nonneg(t: Seq<char>, a: int, b: int)
    requires
        all_digits(t, a, b),
    ensures
        digits_val(t, a, b) >= 0,
    decreases b - a,
{
    if b > a {
        lemma_digits_val_nonneg(t, a, b - 1);
    }
}

pub proof fn lemma_digits_val_mono(t: Seq<char>, a: int, m: int, b: int)
    requires
        all_digits(t, a, b),
        a <= m <= b,
    ensures
        digits_val(t, a, b) >= digits_val(t, a, m),
    decreases b - m,
{
    if b > m {
        lemma_digits_val_mono(t, a, m, b - 1);
        lemma_digits_val_nonneg(t, a, b - 1);
    }
}

/// How one JSON field value coerces under a declared type: null and absent
/// values need nullability; a boolean needs `Boolean`; a number needs
/// `Int64` (and must then be an integer token in 64-bit range) or `Float64`
/// (kept as its token text); a string needs `Utf8`; arrays and objects never
/// coerce.
pub open spec fn coerce_cell(d: DType, nullable: bool, fv: Option<JsonV>) -> Option<CellV> {
    match fv {
        None => if nullable {
            Some(CellV::Null)
        } else {
            None
        },
        Some(v) => match v {
            JsonV::Null => if nullable {
                Some(CellV::Null)
            } else {
                None
            },
            JsonV::Bool(b) => if d == DType::Boolean {
                Some(CellV::Bool(b))
            } else {
                None
            },
            JsonV::Num(t) => if d == DType::Int64 {
                if is_int_token(t) && -0x8000_0000_0000_0000 <= int_token_value(t)
                    < 0x8000_0000_0000_0000 {
                    Some(CellV::Int(int_token_value(t)))
                } else {
                    None
                }
            } else if d == DType::Float64 {
                Some(CellV::Num(t))
            } else {
                None
            },
            JsonV::Str(t) => if d == DType::Utf8 {
                Some(CellV::Str(t))
            } else {
                None
            },
            JsonV::Arr(_) => None,
            JsonV::Obj(_) => None,
        },
    }
}

/// The cells of one record for the first `n` declared fields.
pub open spec fn decode_fields(
    fields: Seq<FieldV>,
    members: Seq<(Seq<char>, JsonV)>,
    n: int,
) -> Option<Seq<CellV>>
    decreases n,
{
    if n <= 0 || fields.len() < n {
        Some(Seq::empty())
    } else {
        match (
            decode_fields(fields, members, n - 1),
            coerce_cell(
                fields[n - 1].dtype,
                fields[n - 1].nullable,
                lookup_from(members, fields[n - 1].name, 0),
            ),
        ) {
            (Some(cs), Some(c)) => Some(cs.push(c)),
            _ => None,
        }
    }
}

/// The cells of one record: it must be a JSON object, and every declared
/// field must coerce.
pub open spec fn decode_record(fields: Seq<FieldV>, r: JsonV) -> Option<Seq<CellV>> {
    match r {
        JsonV::Obj(members) => decode_fields(fields, members, fields.len() as int),
        _ => None,
    }
}

/// The rows of the first `n` records; one record that fails to decode fails
/// them all.
pub open spec fn decode_all(fields: Seq<FieldV>, records: Seq<JsonV>, n: int) -> Option<
    Seq<Seq<CellV>>,
>
    decreases n,
{
    if n <= 0 || records.len() < n {
        Some(Seq::empty())
    } else {
        match (decode_all(fields, records, n - 1), decode_record(fields, records[n - 1])) {
            (Some(rows), Some(row)) => Some(rows.push(row)),
            _ => None,
        }
    }
}

pub proof fn lemma_decode_fields_props(
    fields: Seq<FieldV>,
    members: Seq<(Seq<char>, JsonV)>,
    n: int,
)
    requires
        0 <= n <= fields.len(),
        decode_fields(fields, members, n) is Some,
    ensures
        decode_fields(fields, members, n)->Some_0.len() == n,
        forall|j: int|
            0 <= j < n ==> decode_fields(fields, members, n)->Some_0[j] == coerce_cell(
                fields[j].dtype,
                fields[j].nullable,
                lookup_from(members, fields[j].name, 0),
            )->Some_0,
        forall|j: int|
            0 <= j < n ==> coerce_cell(
                fields[j].dtype,
                fields[j].nullable,
                lookup_from(members, fields[j].name, 0),
            ) is Some,
    decreases n,
{
    if n > 0 {
        lemma_decode_fields_props(fields, members, n - 1);
    }
}

pub proof fn lemma_decode_fields_none(
    fields: Seq<FieldV>,
    members: Seq<(Seq<char>, JsonV)>,
    k: int,
    n: int,
)
    requires
        0 <= k <= n <= fields.len(),
        decode_fields(fields, members, k) is None,
    ensures
        decode_fields(fields, members, n) is None,
    decreases n - k,
{
    if n > k {
        lemma_decode_fields_none(fields, members, k, n - 1);
    }
}

pub proof fn lemma_decode_all_props(fields: Seq<FieldV>, records: Seq<JsonV>, n: int)
    requires
        0 <= n <= records.len(),
        decode_all(fields, records, n) is Some,
    ensures
        decode_all(fields, records, n)->Some_0.len() == n,
        forall|i: int|
            0 <= i < n ==> (#[trigger] decode_record(fields, records[i])) is Some,
        forall|i: int|
            0 <= i < n ==> decode_all(fields, records, n)->Some_0[i] == (#[trigger] decode_record(
                fields,
                records[i],
            ))->Some_0,
    decreases n,
{
    if n > 0 {
        lemma_decode_all_props(fields, records, n - 1);
        let prev = decode_all(fields, records, n - 1)->Some_0;
        let row = decode_record(fields, records[n - 1])->Some_0;
        assert(decode_all(fields, records, n)->Some_0 == prev.push(row));
        assert forall|i: int| 0 <= i < n implies decode_all(fields, records, n)->Some_0[i]
            == (#[trigger] decode_record(fields, records[i]))->Some_0 by {
            if i < n - 1 {
                assert(prev.push(row)[i] == prev[i]);
            }
        };
    }
}

pub proof fn lemma_decode_all_none(fields: Seq<FieldV>, records: Seq<JsonV>, k: int, n: int)
    requires
        0 <= k <= n <= records.len(),
        decode_all(fields, records, k) is None,
    ensures
        decode_all(fields, records, n) is None,
    decreases n - k,
{
    if n > k {
        lemma_decode_all_none(fields, records, k, n - 1);
    }
}

/// A coerced cell is always admissible under its field.
pub proof fn lemma_coerce_cell_ok(f: FieldV, fv: Option<JsonV>)
    requires
        coerce_cell(f.dtype, f.nullable, fv) is Some,
    ensures
        cell_ok(f, coerce_cell(f.dtype, f.nullable, fv)->Some_0),
{
}

pub(crate) fn chars_eq(a: &Vec<char>, b: &Vec<char>) -> (r: bool)
    ensures
        r == (a@ == b@),
{
    if a.len() != b.len() {
        return false;
    }
    let mut k: usize = 0;
    while k < a.len()
        invariant
            a@.len() == b@.len(),
            0 <= k <= a@.len(),
            forall|m: int| 0 <= m < k ==> a@[m] == b@[m],
        decreases a@.len() - k,
    {
        if a[k] != b[k] {
            return false;
        }
        k = k + 1;
    }
    proof {
        assert(a@ =~= b@);
    }
    true
}

/// Parses an optionally signed decimal token as a 64-bit integer, exactly
/// when it is one and fits.
pub(crate) fn parse_i64_token(t: &Vec<char>) -> (r: Option<i64>)
    ensures
        match r {
            Some(v) => is_int_token(t@) && int_token_value(t@) == v as int,
            None => !(is_int_token(t@) && -0x8000_0000_0000_0000 <= int_token_value(t@)
                < 0x8000_0000_0000_0000),
        },
{
    let n = t.len();
    if n == 0 {
        return None;
    }
    let neg = t[0] == '-';
    let start: usize = if neg {
        1
    } else {
        0
    };
    if start >= n {
        return None;
    }
    let mut k = start;
    let mut acc: u128 = 0;
    while k < n
        invariant
            n == t@.len(),
            start <= k <= n,
            start == (if neg { 1int } else { 0int }),
            neg <==> (t@.len() > 0 && t@[0] == '-'),
            start < n,
            all_digits(t@, start as int, k as int),
            acc == digits_val(t@, start as int, k as int),
            acc <= 0x8000_0000_0000_0000,
        decreases n - k,
    {
        let c = t[k];
        let u = c as u32;
        if !(48 <= u && u <= 57) {
            assert(!is_int_token(t@));
            return None;
        }
        acc = acc * 10 + ((u - 48) as u128);
        k = k + 1;
        if acc > 0x8000_0000_0000_0000 {
            proof {
                if is_int_token(t@) {
                    lemma_digits_val_mono(t@, start as int, k as int, n as int);
                }
            }
            return None;
        }
    }
    if neg {
        if acc == 0x8000_0000_0000_0000 {
            Some(i64::MIN)
        } else {
            Some(0i64 - (acc as i64))
        }
    } else {
        if acc == 0x8000_0000_0000_0000 {
            None
        } else {
            Some(acc as i64)
        }
    }
}

pub(crate) fn lookup_member<'a>(members: &'a Vec<(Vec<char>, Json)>, name: &Vec<char>) -> (r: Option<
    &'a Json,
>)
    ensures
        ({
            let mv = jview_obj(members@, members@.len() as int);
            match (r, lookup_from(mv, name@, 0)) {
                (Some(j), Some(v)) => jview(*j) == v,
                (None, None) => true,
                _ => false,
            }
        }),
{
    let ghost mv = jview_obj(members@, members@.len() as int);
    proof {
        lemma_jview_obj(members@, members@.len() as int);
    }
    let mut k: usize = 0;
    while k < members.len()
        invariant
            mv == jview_obj(members@, members@.len() as int),
            mv.len() == members@.len(),
            forall|i: int|
                0 <= i < members@.len() ==> mv[i] == (members@[i].0@, jview(members@[i].1)),
            0 <= k <= members@.len(),
            lookup_from(mv, name@, 0) == lookup_from(mv, name@, k as int),
        decreases members@.len() - k,
    {
        if chars_eq(&members[k].0, name) {
            return Some(&members[k].1);
        }
        k = k + 1;
    }
    None
}

/// Coerces one looked-up field value under a declared type, as
/// `coerce_cell` states.
fn coerce_exec(dtype: DType, nullable: bool, fv: Option<&Json>) -> (r: Option<Cell>)
    ensures
        ({
            let fvv = match fv {
                Some(j) => Some(jview(*j)),
                None => None,
            };
            match (r, coerce_cell(dtype, nullable, fvv)) {
                (Some(c), Some(cv)) => c@ == cv,
                (None, None) => true,
                _ => false,
            }
        }),
{
    match fv {
        None => if nullable {
            Some(Cell::Null)
        } else {
            None
        },
        Some(j) => match j {
            Json::Null => if nullable {
                Some(Cell::Null)
            } else {
                None
            },
            Json::Bool(b) => if dtype == DType::Boolean {
                Some(Cell::Bool(*b))
            } else {
                None
            },
            Json::Num(t) => if dtype == DType::Int64 {
                match parse_i64_token(t) {
                    Some(v) => Some(Cell::Int(v)),
                    None => None,
                }
            } else if dtype == DType::Float64 {
                Some(Cell::Num(chars_to_string(t)))
            } else {
                None
            },
            Json::Str(t) => if dtype == DType::Utf8 {
                Some(Cell::Str(chars_to_string(t)))
            } else {
                None
            },
            Json::Arr(_) => None,
            Json::Obj(_) => None,
        },
    }
}

/// Decodes one record against the declared fields, as `decode_record`
/// states.
fn decode_record_exec(fields: &Vec<FieldSpec>, rec: &Json) -> (r: Option<Vec<Cell>>)
    ensures
        match (r, decode_record(fields.deep_view(), jview(*rec))) {
            (Some(cs), Some(sp)) => cs.deep_view() == sp,
            (None, None) => true,
            _ => false,
        },
{
    match rec {
        Json::Obj(members) => {
            let ghost mv = jview_obj(members@, members@.len() as int);
            let ghost fdv = fields.deep_view();
            let mut cells: Vec<Cell> = Vec::new();
            let mut k: usize = 0;
            while k < fields.len()
                invariant
                    *rec == Json::Obj(*members),
                    mv == jview_obj(members@, members@.len() as int),
                    fdv == fields.deep_view(),
                    fdv.len() == fields@.len(),
                    0 <= k <= fields@.len(),
                    decode_fields(fdv, mv, k as int) == Some(cells.deep_view()),
                decreases fields@.len() - k,
            {
                let ghost old_dv = cells.deep_view();
                let name_chars = str_to_chars(fields[k].name.as_str());
                let fv = lookup_member(members, &name_chars);
                match coerce_exec(fields[k].dtype, fields[k].nullable, fv) {
                    Some(c) => {
                        let ghost cv = c@;
                        cells.push(c);
                        proof {
                            assert(cells.deep_view() =~= old_dv.push(cv));
                            assert(decode_fields(fdv, mv, k + 1 as int) == Some(
                                old_dv.push(cv),
                            ));
                        }
                    },
                    None => {
                        proof {
                            assert(decode_fields(fdv, mv, k + 1 as int) is None);
                            lemma_decode_fields_none(fdv, mv, k + 1, fdv.len() as int);
                        }
                        return None;
                    },
                }
                k = k + 1;
            }
            Some(cells)
        },
        Json::Null => None,
        Json::Bool(_) => None,
        Json::Num(_) => None,
        Json::Str(_) => None,
        Json::Arr(_) => None,
    }
}

/// Copies one cell.
fn cell_dup(c: &Cell) -> (r: Cell)
    ensures
        r@ == c@,
{
    match c {
        Cell::Null => Cell::Null,
        Cell::Int(n) => Cell::Int(*n),
        Cell::Num(t) => Cell::Num(t.clone()),
        Cell::Str(t) => Cell::Str(t.clone()),
        Cell::Bool(b) => Cell::Bool(*b),
    }
}

/// Copies one field descriptor.
fn field_dup(f: &FieldSpec) -> (r: FieldSpec)
    ensures
        r@ == f@,
{
    FieldSpec { name: f.name.clone(), dtype: f.dtype, nullable: f.nullable }
}

/// Decodes a sequence of records into one columnar batch matching the
/// declared fields: every record must be an object whose declared fields all
/// coerce; the batch then has one row per record, in order, and one column
/// per field. Any record that fails coercion fails the whole decode with
/// `SchemaMismatch`.
pub fn decode_records(fields: &Vec<FieldSpec>, records: &Vec<Json>) -> (r: Result<
    Batch,
    ScanError,
>)
    ensures
        ({
            let recs = jview_arr(records@, records@.len() as int);
            match decode_all(fields.deep_view(), recs, records@.len() as int) {
                Some(rows) => r matches Ok(b) && b.well_formed() && b.fields.deep_view()
                    == fields.deep_view() && b.columns@.len() == fields@.len()
                    && b.spec_num_rows() == records@.len() && (forall|i: int, k: int|
                    0 <= i < records@.len() && 0 <= k < fields@.len()
                        ==> (#[trigger] b.columns@[k]@[i]@) == rows[i][k]),
                None => r == Err::<Batch, ScanError>(ScanError::SchemaMismatch),
            }
        }),
{
    let ghost fdv = fields.deep_view();
    let ghost recs = jview_arr(records@, records@.len() as int);
    proof {
        lemma_jview_arr(records@, records@.len() as int);
    }
    let mut rows: Vec<Vec<Cell>> = Vec::new();
    let mut i: usize = 0;
    while i < records.len()
        invariant
            fdv == fields.deep_view(),
            fdv.len() == fields@.len(),
            recs == jview_arr(records@, records@.len() as int),
            recs.len() == records@.len(),
            forall|m: int| 0 <= m < records@.len() ==> recs[m] == jview(records@[m]),
            0 <= i <= records@.len(),
            decode_all(fdv, recs, i as int) == Some(rows.deep_view()),
            rows.deep_view().len() == i,
            forall|m: int|
                0 <= m < i ==> (#[trigger] rows.deep_view()[m]).len() == fields@.len(),
        decreases records@.len() - i,
    {
        let ghost old_rows_dv = rows.deep_view();
        match decode_record_exec(fields, &records[i]) {
            Some(row) => {
                let ghost row_dv = row.deep_view();
                proof {
                    lemma_decode_fields_props(
                        fdv,
                        jview(records@[i as int])->Obj_0,
                        fdv.len() as int,
                    );
                }
                rows.push(row);
                proof {
                    assert(rows.deep_view() =~= old_rows_dv.push(row_dv));
                    assert(decode_all(fdv, recs, i + 1 as int) == Some(
                        old_rows_dv.push(row_dv),
                    ));
                }
            },
            None => {
                proof {
                    assert(decode_all(fdv, recs, i + 1 as int) is None);
                    lemma_decode_all_none(fdv, recs, i + 1, recs.len() as int);
                }
                return Err(ScanError::SchemaMismatch);
            },
        }
        i = i + 1;
    }
    let ghost rows_dv = rows.deep_view();
    let n_rows = rows.len();
    let mut out_fields: Vec<FieldSpec> = Vec::new();
    let mut k: usize = 0;
    while k < fields.len()
        invariant
            fdv == fields.deep_view(),
            0 <= k <= fields@.len(),
            out_fields@.len() == k,
            out_fields.deep_view() =~~= fdv.subrange(0, k as int),
        decreases fields@.len() - k,
    {
        let f2 = field_dup(&fields[k]);
        out_fields.push(f2);
        proof {
            assert(fdv[k as int] == fields@[k as int].deep_view());
            assert(out_fields.deep_view()[k as int] == out_fields@[k as int].deep_view());
            assert(out_fields@[k as int]@ == fields@[k as int]@);
            assert(out_fields.deep_view() =~~= fdv.subrange(0, k + 1 as int));
        }
        k = k + 1;
    }
    assert(out_fields.deep_view() =~~= fdv);
    let mut columns: Vec<Vec<Cell>> = Vec::new();
    let mut k: usize = 0;
    while k < fields.len()
        invariant
            fdv == fields.deep_view(),
            rows_dv == rows.deep_view(),
            rows@.len() == rows_dv.len(),
            n_rows == rows_dv.len(),
            forall|m: int| 0 <= m < rows_dv.len() ==> (#[trigger] rows_dv[m]).len()
                == fields@.len(),
            0 <= k <= fields@.len(),
            columns@.len() == k,
            forall|kk: int|
                0 <= kk < k ==> (#[trigger] columns@[kk])@.len() == rows_dv.len(),
            forall|kk: int, m: int|
                0 <= kk < k && 0 <= m < rows_dv.len() ==> (#[trigger] columns@[kk]@[m])@
                    == rows_dv[m][kk],
        decreases fields@.len() - k,
    {
        let mut col: Vec<Cell> = Vec::new();
        let mut m: usize = 0;
        while m < rows.len()
            invariant
                rows_dv == rows.deep_view(),
                rows@.len() == rows_dv.len(),
                forall|mm: int| 0 <= mm < rows_dv.len() ==> (#[trigger] rows_dv[mm]).len()
                    == fields@.len(),
                k < fields@.len(),
                0 <= m <= rows@.len(),
                col@.len() == m,
                forall|mm: int|
                    0 <= mm < m ==> (#[trigger] col@[mm])@ == rows_dv[mm][k as int],
            decreases rows@.len() - m,
        {
            proof {
                assert(rows_dv[m as int] == rows@[m as int].deep_view());
                assert(rows@[m as int]@.len() == rows_dv[m as int].len());
            }
            let c = cell_dup(&rows[m][k]);
            col.push(c);
            m = m + 1;
        }
        columns.push(col);
        k = k + 1;
    }
    let b = Batch { fields: out_fields, columns, n_rows };
    proof {
        lemma_decode_all_props(fdv, recs, recs.len() as int);
        assert forall|kk: int, ii: int|
            0 <= kk < b.columns@.len() && 0 <= ii < b.columns@[kk]@.len() implies cell_ok(
            b.fields@[kk]@,
            b.columns@[kk]@[ii]@,
        ) by {
            assert(rows_dv.len() == recs.len());
            assert(0 <= ii < recs.len());
            assert(decode_record(fdv, recs[ii]) is Some);
            assert(rows_dv[ii] == decode_record(fdv, recs[ii])->Some_0);
            let members = recs[ii]->Obj_0;
            assert(recs[ii] matches JsonV::Obj(m) && m == members);
            assert(decode_fields(fdv, members, fdv.len() as int) is Some);
            lemma_decode_fields_props(fdv, members, fdv.len() as int);
            assert(b.columns@[kk]@[ii]@ == rows_dv[ii][kk]);
            assert(rows_dv[ii][kk] == coerce_cell(
                fdv[kk].dtype,
                fdv[kk].nullable,
                lookup_from(members, fdv[kk].name, 0),
            )->Some_0);
            lemma_coerce_cell_ok(fdv[kk], lookup_from(members, fdv[kk].name, 0));
            assert(b.fields@[kk]@ == fdv[kk]);
        };
    }
    Ok(b)
}

/// Decodes a normalized record stream against the declared fields: the text
/// is split on newlines, empty lines are skipped, each remaining line must
/// be one JSON object matching the schema. A malformed line fails the scan
/// with `ParseFailure`; a record that does not match the schema fails it
/// with `SchemaMismatch`; an empty stream yields a zero-row batch.
pub fn decode_stream(text: &str, fields: &Vec<FieldSpec>) -> (r: Result<Batch, ScanError>)
    ensures
        ({
            match records_of(text@) {
                None => r == Err::<Batch, ScanError>(ScanError::ParseFailure),
                Some(records) => match decode_all(
                    fields.deep_view(),
                    records,
                    records.len() as int,
                ) {
                    Some(rows) => r matches Ok(b) && b.well_formed() && b.fields.deep_view()
                        == fields.deep_view() && b.columns@.len() == fields@.len()
                        && b.spec_num_rows() == records.len() && (forall|i: int, k: int|
                        0 <= i < records.len() && 0 <= k < fields@.len()
                            ==> (#[trigger] b.columns@[k]@[i]@) == rows[i][k]),
                    None => r == Err::<Batch, ScanError>(ScanError::SchemaMismatch),
                },
            }
        }),
{
    let s = str_to_chars(text);
    let ghost sv = s@;
    // split the text into lines
    let mut lines: Vec<Vec<char>> = Vec::new();
    let mut i: usize = 0;
    let mut done = false;
    while !done
        invariant
            sv == s@,
            sv == text@,
            0 <= i <= sv.len(),
            !done ==> split_lines(sv) == lines.deep_view() + split_from(sv, i as int),
            done ==> split_lines(sv) == lines.deep_view(),
        decreases sv.len() - i, (if done { 0int } else { 1int }),
    {
        let n = find_nl_exec(&s, i);
        proof {
            lemma_find_nl(sv, i as int);
        }
        let ghost old_lines_dv = lines.deep_view();
        if n < s.len() {
            let line = copy_range_chars(&s, i, n);
            lines.push(line);
            proof {
                assert(lines.deep_view() =~~= old_lines_dv + seq![sv.subrange(i as int, n as int)]);
            }
            i = n + 1;
        } else {
            let line = copy_range_chars(&s, i, s.len());
            lines.push(line);
            proof {
                assert(lines.deep_view() =~~= old_lines_dv + seq![
                    sv.subrange(i as int, sv.len() as int),
                ]);
            }
            done = true;
        }
    }
    let ghost ldv = lines.deep_view();
    // parse the non-empty lines
    let mut records: Vec<Json> = Vec::new();
    let mut k: usize = 0;
    while k < lines.len()
        invariant
            sv == text@,
            ldv == lines.deep_view(),
            ldv == split_lines(sv),
            ldv.len() == lines@.len(),
            0 <= k <= lines@.len(),
            ({
                let built = jview_arr(records@, records@.len() as int);
                match parse_lines_from(ldv, k as int) {
                    Some(rest) => parse_lines_from(ldv, 0) == Some(built + rest),
                    None => parse_lines_from(ldv, 0) is None,
                }
            }),
        decreases lines@.len() - k,
    {
        proof {
            lemma_jview_arr(records@, records@.len() as int);
            assert(ldv[k as int] == lines@[k as int].deep_view());
            assert(ldv[k as int] =~= lines@[k as int]@);
        }
        let ghost old_recs = jview_arr(records@, records@.len() as int);
        if lines[k].len() > 0 {
            match parse_chars(&lines[k]) {
                Some(j) => {
                    let ghost jv = jview(j);
                    records.push(j);
                    proof {
                        lemma_jview_arr(records@, records@.len() as int);
                        assert(jview_arr(records@, records@.len() as int) =~= old_recs
                            + seq![jv]);
                    }
                },
                None => {
                    proof {
                        assert(parse_lines_from(ldv, k as int) is None);
                    }
                    return Err(ScanError::ParseFailure);
                },
            }
        }
        k = k + 1;
    }
    proof {
        assert(parse_lines_from(ldv, lines@.len() as int) == Some(Seq::<JsonV>::empty()));
        lemma_jview_arr(records@, records@.len() as int);
        assert(jview_arr(records@, records@.len() as int) + Seq::<JsonV>::empty() =~= jview_arr(
            records@,
            records@.len() as int,
        ));
    }
    decode_records(fields, &records)
}

fn find_nl_exec(s: &Vec<char>, i: usize) -> (r: usize)
    requires
        i <= s@.len(),
    ensures
        r as int == find_nl(s@, i as int),
        i <= r <= s@.len(),
{
    let mut j = i;
    while j < s.len() && s[j] != '\n'
        invariant
            i <= j <= s@.len(),
            find_nl(s@, i as int) == find_nl(s@, j as int),
        decreases s@.len() - j,
    {
        j = j + 1;
    }
    j
}

fn copy_range_chars(s: &Vec<char>, a: usize, b: usize) -> (r: Vec<char>)
    requires
        a <= b <= s@.len(),
    ensures
        r@ == s@.subrange(a as int, b as int),
{
    let mut out: Vec<char> = Vec::new();
    let mut k = a;
    while k < b
        invariant
            a <= k <= b <= s@.len(),
            out@ == s@.subrange(a as int, k as int),
        decreases b - k,
    {
        out.push(s[k]);
        assert(out@ =~= s@.subrange(a as int, k + 1 as int));
        k = k + 1;
    }
    out
}

} // verus!
