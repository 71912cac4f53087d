use vstd::prelude::*;
use crate::decode::lookup_from;
use crate::decode::{is_int_token, int_token_value};
use crate::errors::ScanError;
use crate::json::{Json, JsonV, jview, jview_arr, jview_obj, lemma_jview_arr, lemma_jview_obj};
use crate::parse::{parse_doc, parse_text};
use crate::schema::{Batch, Cell, CellV, DType, FieldSpec, FieldV, cell_ok};
use crate::text::{chars_to_string, str_to_chars};

verus! {

/// One process of a process listing. The two load percentages are carried as
/// the exact decimal text of their JSON numbers, absent when the listing had
/// none.
#[derive(Debug)]
pub struct Process {
    pub command: String,
    pub cpu_percent: Option<String>,
    pub mem_percent: Option<String>,
    pub pid: i64,
    pub rss: i64,
    pub started: Option<String>,
    pub stat: Option<String>,
    pub time: String,
    pub tty: Option<String>,
    pub user: String,
    pub vsz: i64,
}

/// Mathematical image of a `Process`.
#[verifier::ext_equal]
pub struct ProcessV {
    pub command: Seq<char>,
    pub cpu_percent: Option<Seq<char>>,
    pub mem_percent: Option<Seq<char>>,
    pub pid: int,
    pub rss: int,
    pub started: Option<Seq<char>>,
    pub stat: Option<Seq<char>>,
    pub time: Seq<char>,
    pub tty: Option<Seq<char>>,
    pub user: Seq<char>,
    pub vsz: int,
}

impl View for Process {
    type V = ProcessV;

    open spec fn view(&self) -> ProcessV {
        ProcessV {
            command: self.command@,
            cpu_percent: self.cpu_percent.deep_view(),
            mem_percent: self.mem_percent.deep_view(),
            pid: self.pid as int,
            rss: self.rss as int,
            started: self.started.deep_view(),
            stat: self.stat.deep_view(),
            time: self.time@,
            tty: self.tty.deep_view(),
            user: self.user@,
            vsz: self.vsz as int,
        }
    }
}

impl DeepView for Process {
    type V = ProcessV;

    open spec fn deep_view(&self) -> ProcessV {
        self.view()
    }
}

/// The string member under a name: present exactly when the record holds a
/// JSON string there; anything else counts as absent.
pub open spec fn str_member(members: Seq<(Seq<char>, JsonV)>, name: Seq<char>) -> Option<
    Seq<char>,
> {
    match lookup_from(members, name, 0) {
        Some(JsonV::Str(t)) => Some(t),
        _ => None,
    }
}

/// The numeric member under a name, kept as its token text; anything else
/// counts as absent.
pub open spec fn num_member(members: Seq<(Seq<char>, JsonV)>, name: Seq<char>) -> Option<
    Seq<char>,
> {
    match lookup_from(members, name, 0) {
        Some(JsonV::Num(t)) => Some(t),
        _ => None,
    }
}

/// The integer member under a name: the record must hold an integer JSON
/// number in 64-bit range there.
pub open spec fn int_member(members: Seq<(Seq<char>, JsonV)>, name: Seq<char>) -> Option<int> {
    match lookup_from(members, name, 0) {
        Some(JsonV::Num(t)) => if is_int_token(t) && -0x8000_0000_0000_0000 <= int_token_value(t)
            < 0x8000_0000_0000_0000 {
            Some(int_token_value(t))
        } else {
            None
        },
        _ => None,
    }
}

/// The process a record denotes, if the record is an object with the
/// required fields of a process listing.
pub open spec fn process_of(v: JsonV) -> Option<ProcessV> {
    match v {
        JsonV::Obj(members) => {
            match (
                str_member(members, "command"@),
                int_member(members, "pid"@),
                int_member(members, "rss"@),
                str_member(members, "time"@),
                str_member(members, "user"@),
                int_member(members, "vsz"@),
            ) {
                (Some(command), Some(pid), Some(rss), Some(time), Some(user), Some(vsz)) => Some(
                    ProcessV {
                        command,
                        cpu_percent: num_member(members, "cpu_percent"@),
                        mem_percent: num_member(members, "mem_percent"@),
                        pid,
                        rss,
                        started: str_member(members, "started"@),
                        stat: str_member(members, "stat"@),
                        time,
                        tty: str_member(members, "tty"@),
                        user,
                        vsz,
                    },
                ),
                _ => None,
            }
        },
        _ => None,
    }
}

/// The processes of the first `n` records; one record that is not a process
/// fails them all.
pub open spec fn processes_of(records: Seq<JsonV>, n: int) -> Option<Seq<ProcessV>>
    decreases n,
{
    if n <= 0 || records.len() < n {
        Some(Seq::empty())
    } else {
        match (processes_of(records, n - 1), process_of(records[n - 1])) {
            (Some(ps), Some(p)) => Some(ps.push(p)),
            _ => None,
        }
    }
}

pub proof fn lemma_processes_of_none(records: Seq<JsonV>, k: int, n: int)
    requires
        0 <= k <= n <= records.len(),
        processes_of(records, k) is None,
    ensures
        processes_of(records, n) is None,
    decreases n - k,
{
    if n > k {
        lemma_processes_of_none(records, k, n - 1);
    }
}

/// A looked-up member value of a record object, by field name.
fn member_value<'a>(members: &'a Vec<(Vec<char>, Json)>, name: &str) -> (r: Option<&'a Json>)
    ensures
        ({
            let mv = jview_obj(members@, members@.len() as int);
            match (r, lookup_from(mv, name@, 0)) {
                (Some(j), Some(v)) => jview(*j) == v,
                (None, None) => true,
                _ => false,
            }
        }),
{
    let name_chars = str_to_chars(name);
    crate::decode::lookup_member(members, &name_chars)
}

fn take_str_member(members: &Vec<(Vec<char>, Json)>, name: &str) -> (r: Option<String>)
    ensures
        ({
            let mv = jview_obj(members@, members@.len() as int);
            match (r, str_member(mv, name@)) {
                (Some(s), Some(t)) => s@ == t,
                (None, None) => true,
                _ => false,
            }
        }),
{
    match member_value(members, name) {
        Some(j) => match j {
            Json::Str(t) => Some(chars_to_string(t)),
            _ => None,
        },
        None => None,
    }
}

fn take_num_member(members: &Vec<(Vec<char>, Json)>, name: &str) -> (r: Option<String>)
    ensures
        ({
            let mv = jview_obj(members@, members@.len() as int);
            match (r, num_member(mv, name@)) {
                (Some(s), Some(t)) => s@ == t,
                (None, None) => true,
                _ => false,
            }
        }),
{
    match member_value(members, name) {
        Some(j) => match j {
            Json::Num(t) => Some(chars_to_string(t)),
            _ => None,
        },
        None => None,
    }
}

fn take_int_member(members: &Vec<(Vec<char>, Json)>, name: &str) -> (r: Option<i64>)
    ensures
        ({
            let mv = jview_obj(members@, members@.len() as int);
            match (r, int_member(mv, name@)) {
                (Some(v), Some(n)) => v as int == n,
                (None, None) => true,
                _ => false,
            }
        }),
{
    match member_value(members, name) {
        Some(j) => match j {
            Json::Num(t) => crate::decode::parse_i64_token(t),
            _ => None,
        },
        None => None,
    }
}

/// Extracts one process from one record, as `process_of` states.
fn process_exec(rec: &Json) -> (r: Option<Process>)
    ensures
        match (r, process_of(jview(*rec))) {
            (Some(p), Some(pv)) => p@ == pv,
            (None, None) => true,
            _ => false,
        },
{
    match rec {
        Json::Obj(members) => {
            let command = take_str_member(members, "command");
            let pid = take_int_member(members, "pid");
            let rss = take_int_member(members, "rss");
            let time = take_str_member(members, "time");
            let user = take_str_member(members, "user");
            let vsz = take_int_member(members, "vsz");
            match (command, pid, rss, time, user, vsz) {
                (Some(command), Some(pid), Some(rss), Some(time), Some(user), Some(vsz)) => {
                    let p = Process {
                        command,
                        cpu_percent: take_num_member(members, "cpu_percent"),
                        mem_percent: take_num_member(members, "mem_percent"),
                        pid,
                        rss,
                        started: take_str_member(members, "started"),
                        stat: take_str_member(members, "stat"),
                        time,
                        tty: take_str_member(members, "tty"),
                        user,
                        vsz,
                    };
                    proof {
                        assert(p@ =~~= process_of(jview(*rec))->Some_0);
                    }
                    Some(p)
                },
                _ => None,
            }
        },
        Json::Null => None,
        Json::Bool(_) => None,
        Json::Num(_) => None,
        Json::Str(_) => None,
        Json::Arr(_) => None,
    }
}

/// Parses the output parser's JSON for a process listing: the text must be
/// one JSON array whose records each carry the required process fields.
/// Malformed JSON fails with `ParseFailure`; a record without them fails
/// with `SchemaMismatch`.
pub fn parse(jc_output: &str) -> (r: Result<Vec<Process>, ScanError>)
    ensures
        match parse_doc(jc_output@) {
            Some(doc) => match doc {
                JsonV::Arr(items) => match processes_of(items, items.len() as int) {
                    Some(ps) => r matches Ok(v) && v.deep_view() == ps,
                    None => r == Err::<Vec<Process>, ScanError>(ScanError::SchemaMismatch),
                },
                _ => r == Err::<Vec<Process>, ScanError>(ScanError::ParseFailure),
            },
            None => r == Err::<Vec<Process>, ScanError>(ScanError::ParseFailure),
        },
{
    match parse_text(jc_output) {
        Some(doc) => match doc {
            Json::Arr(v) => {
                let ghost items = jview_arr(v@, v@.len() as int);
                proof {
                    lemma_jview_arr(v@, v@.len() as int);
                }
                let mut out: Vec<Process> = Vec::new();
                let mut k: usize = 0;
                while k < v.len()
                    invariant
                        parse_doc(jc_output@) == Some(JsonV::Arr(items)),
                        items == jview_arr(v@, v@.len() as int),
                        items.len() == v@.len(),
                        forall|i: int| 0 <= i < v@.len() ==> items[i] == jview(v@[i]),
                        0 <= k <= v@.len(),
                        processes_of(items, k as int) == Some(out.deep_view()),
                        out@.len() == k,
                    decreases v@.len() - k,
                {
                    let ghost old_dv = out.deep_view();
                    match process_exec(&v[k]) {
                        Some(p) => {
                            let ghost pv = p@;
                            out.push(p);
                            proof {
                                assert(out.deep_view() =~~= old_dv.push(pv));
                            }
                        },
                        None => {
                            proof {
                                assert(processes_of(items, k + 1 as int) is None);
                                lemma_processes_of_none(items, k + 1, items.len() as int);
                            }
                            return Err(ScanError::SchemaMismatch);
                        },
                    }
                    k = k + 1;
                }
                Ok(out)
            },
            _ => Err(ScanError::ParseFailure),
        },
        None => Err(ScanError::ParseFailure),
    }
}

/// The declared schema of the process table, in column order.
pub open spec fn process_schema_view() -> Seq<FieldV> {
    seq![
        FieldV { name: "command"@, dtype: DType::Utf8, nullable: false },
        FieldV { name: "cpu_percent"@, dtype: DType::Float64, nullable: true },
        FieldV { name: "mem_percent"@, dtype: DType::Float64, nullable: true },
        FieldV { name: "pid"@, dtype: DType::Int64, nullable: false },
        FieldV { name: "rss"@, dtype: DType::Int64, nullable: false },
        FieldV { name: "started"@, dtype: DType::Utf8, nullable: true },
        FieldV { name: "stat"@, dtype: DType::Utf8, nullable: true },
        FieldV { name: "time"@, dtype: DType::Utf8, nullable: false },
        FieldV { name: "tty"@, dtype: DType::Utf8, nullable: true },
        FieldV { name: "user"@, dtype: DType::Utf8, nullable: false },
        FieldV { name: "vsz"@, dtype: DType::Int64, nullable: false },
    ]
}

pub fn process_schema() -> (r: Vec<FieldSpec>)
    ensures
        r.deep_view() == process_schema_view(),
{
    let mut schema: Vec<FieldSpec> = Vec::new();
    schema.push(FieldSpec::new("command", DType::Utf8, false));
    schema.push(FieldSpec::new("cpu_percent", DType::Float64, true));
    schema.push(FieldSpec::new("mem_percent", DType::Float64, true));
    schema.push(FieldSpec::new("pid", DType::Int64, false));
    schema.push(FieldSpec::new("rss", DType::Int64, false));
    schema.push(FieldSpec::new("started", DType::Utf8, true));
    schema.push(FieldSpec::new("stat", DType::Utf8, true));
    schema.push(FieldSpec::new("time", DType::Utf8, false));
    schema.push(FieldSpec::new("tty", DType::Utf8, true));
    schema.push(FieldSpec::new("user", DType::Utf8, false));
    schema.push(FieldSpec::new("vsz", DType::Int64, false));
    proof {
        assert(schema.deep_view() =~~= process_schema_view());
    }
    schema
}

/// The cell of an optional numeric field: its token text, or null when the
/// listing had none.
pub open spec fn num_cell_of(t: Option<Seq<char>>) -> CellV {
    match t {
        Some(s) => CellV::Num(s),
        None => CellV::Null,
    }
}

/// The cell of an optional string field: its value, or null when the
/// listing had none.
pub open spec fn str_cell_of(t: Option<Seq<char>>) -> CellV {
    match t {
        Some(s) => CellV::Str(s),
        None => CellV::Null,
    }
}

fn opt_num_cell(t: &Option<String>) -> (r: Cell)
    ensures
        r@ == num_cell_of(t.deep_view()),
{
    match t {
        Some(s) => Cell::Num(s.clone()),
        None => Cell::Null,
    }
}

fn opt_str_cell(t: &Option<String>) -> (r: Cell)
    ensures
        r@ == str_cell_of(t.deep_view()),
{
    match t {
        Some(s) => Cell::Str(s.clone()),
        None => Cell::Null,
    }
}

/// Builds the columnar batch of a process listing: one row per process, in
/// order; an absent optional field surfaces as a null cell in its nullable
/// column, never as a silently defaulted value.
pub fn processes_to_batch(processes: &Vec<Process>) -> (r: Batch)
    ensures
        r.well_formed(),
        r.fields.deep_view() == process_schema_view(),
        r.spec_num_rows() == processes@.len(),
        r.columns@.len() == 11,
        forall|i: int|
            0 <= i < processes@.len() ==> (#[trigger] r.columns@[0]@[i]@) == CellV::Str(
                processes@[i]@.command,
            ),
        forall|i: int|
            0 <= i < processes@.len() ==> (#[trigger] r.columns@[1]@[i]@) == num_cell_of(
                processes@[i]@.cpu_percent,
            ),
        forall|i: int|
            0 <= i < processes@.len() ==> (#[trigger] r.columns@[2]@[i]@) == num_cell_of(
                processes@[i]@.mem_percent,
            ),
        forall|i: int|
            0 <= i < processes@.len() ==> (#[trigger] r.columns@[3]@[i]@) == CellV::Int(
                processes@[i]@.pid,
            ),
        forall|i: int|
            0 <= i < processes@.len() ==> (#[trigger] r.columns@[4]@[i]@) == CellV::Int(
                processes@[i]@.rss,
            ),
        forall|i: int|
            0 <= i < processes@.len() ==> (#[trigger] r.columns@[5]@[i]@) == str_cell_of(
                processes@[i]@.started,
            ),
        forall|i: int|
            0 <= i < processes@.len() ==> (#[trigger] r.columns@[6]@[i]@) == str_cell_of(
                processes@[i]@.stat,
            ),
        forall|i: int|
            0 <= i < processes@.len() ==> (#[trigger] r.columns@[7]@[i]@) == CellV::Str(
                processes@[i]@.time,
            ),
        forall|i: int|
            0 <= i < processes@.len() ==> (#[trigger] r.columns@[8]@[i]@) == str_cell_of(
                processes@[i]@.tty,
            ),
        forall|i: int|
            0 <= i < processes@.len() ==> (#[trigger] r.columns@[9]@[i]@) == CellV::Str(
                processes@[i]@.user,
            ),
        forall|i: int|
            0 <= i < processes@.len() ==> (#[trigger] r.columns@[10]@[i]@) == CellV::Int(
                processes@[i]@.vsz,
            ),
{
    let n = processes.len();
    let mut c_command: Vec<Cell> = Vec::new();
    let mut c_cpu: Vec<Cell> = Vec::new();
    let mut c_mem: Vec<Cell> = Vec::new();
    let mut c_pid: Vec<Cell> = Vec::new();
    let mut c_rss: Vec<Cell> = Vec::new();
    let mut c_started: Vec<Cell> = Vec::new();
    let mut c_stat: Vec<Cell> = Vec::new();
    let mut c_time: Vec<Cell> = Vec::new();
    let mut c_tty: Vec<Cell> = Vec::new();
    let mut c_user: Vec<Cell> = Vec::new();
    let mut c_vsz: Vec<Cell> = Vec::new();
    let mut i: usize = 0;
    while i < n
        invariant
            n == processes@.len(),
            0 <= i <= n,
            c_command@.len() == i,
            c_cpu@.len() == i,
            c_mem@.len() == i,
            c_pid@.len() == i,
            c_rss@.len() == i,
            c_started@.len() == i,
            c_stat@.len() == i,
            c_time@.len() == i,
            c_tty@.len() == i,
            c_user@.len() == i,
            c_vsz@.len() == i,
            forall|m: int|
                0 <= m < i ==> (#[trigger] c_command@[m])@ == CellV::Str(
                    processes@[m]@.command,
                ),
            forall|m: int|
                0 <= m < i ==> (#[trigger] c_cpu@[m])@ == num_cell_of(
                    processes@[m]@.cpu_percent,
                ),
            forall|m: int|
                0 <= m < i ==> (#[trigger] c_mem@[m])@ == num_cell_of(
                    processes@[m]@.mem_percent,
                ),
            forall|m: int|
                0 <= m < i ==> (#[trigger] c_pid@[m])@ == CellV::Int(processes@[m]@.pid),
            forall|m: int|
                0 <= m < i ==> (#[trigger] c_rss@[m])@ == CellV::Int(processes@[m]@.rss),
            forall|m: int|
                0 <= m < i ==> (#[trigger] c_started@[m])@ == str_cell_of(
                    processes@[m]@.started,
                ),
            forall|m: int|
                0 <= m < i ==> (#[trigger] c_stat@[m])@ == str_cell_of(
                    processes@[m]@.stat,
                ),
            forall|m: int|
                0 <= m < i ==> (#[trigger] c_time@[m])@ == CellV::Str(processes@[m]@.time),
            forall|m: int|
                0 <= m < i ==> (#[trigger] c_tty@[m])@ == str_cell_of(
                    processes@[m]@.tty,
                ),
            forall|m: int|
                0 <= m < i ==> (#[trigger] c_user@[m])@ == CellV::Str(processes@[m]@.user),
            forall|m: int|
                0 <= m < i ==> (#[trigger] c_vsz@[m])@ == CellV::Int(processes@[m]@.vsz),
        decreases n - i,
    {
        let p = &processes[i];
        c_command.push(Cell::Str(p.command.clone()));
        c_cpu.push(opt_num_cell(&p.cpu_percent));
        c_mem.push(opt_num_cell(&p.mem_percent));
        c_pid.push(Cell::Int(p.pid));
        c_rss.push(Cell::Int(p.rss));
        c_started.push(opt_str_cell(&p.started));
        c_stat.push(opt_str_cell(&p.stat));
        c_time.push(Cell::Str(p.time.clone()));
        c_tty.push(opt_str_cell(&p.tty));
        c_user.push(Cell::Str(p.user.clone()));
        c_vsz.push(Cell::Int(p.vsz));
        i = i + 1;
    }
    let mut columns: Vec<Vec<Cell>> = Vec::new();
    columns.push(c_command);
    columns.push(c_cpu);
    columns.push(c_mem);
    columns.push(c_pid);
    columns.push(c_rss);
    columns.push(c_started);
    columns.push(c_stat);
    columns.push(c_time);
    columns.push(c_tty);
    columns.push(c_user);
    columns.push(c_vsz);
    let b = Batch { fields: process_schema(), columns, n_rows: n };
    proof {
        assert forall|k: int, i: int|
            0 <= k < b.columns@.len() && 0 <= i < b.columns@[k]@.len() implies cell_ok(
            b.fields@[k]@,
            b.columns@[k]@[i]@,
        ) by {
            assert(b.fields.deep_view().len() == 11);
            assert(b.fields@.len() == 11);
            assert(b.fields.deep_view()[k] == b.fields@[k].deep_view());
            assert(b.fields@[k]@ == process_schema_view()[k]);
        };
    }
    b
}

/// The table function of the process listing: it decodes a parser's JSON
/// output into the columnar batch of the process table.
pub struct ProcessTableFunc {}

impl ProcessTableFunc {
    /// Builds the process table's batch from the output parser's JSON text:
    /// one row per process record, in order, each column holding exactly the
    /// extracted field, with absent optionals surfacing as nulls.
    pub fn call(&self, jc_output: &str) -> (r: Result<Batch, ScanError>)
        ensures
            match parse_doc(jc_output@) {
                Some(doc) => match doc {
                    JsonV::Arr(items) => match processes_of(items, items.len() as int) {
                        Some(ps) => r matches Ok(b) && b.well_formed() && b.fields.deep_view()
                            == process_schema_view() && b.spec_num_rows() == ps.len()
                            && b.columns@.len() == 11 && (forall|i: int|
                            0 <= i < ps.len() ==> (#[trigger] b.columns@[0]@[i]@) == CellV::Str(
                                ps[i].command,
                            ) && b.columns@[1]@[i]@ == num_cell_of(ps[i].cpu_percent)
                                && b.columns@[2]@[i]@ == num_cell_of(ps[i].mem_percent)
                                && b.columns@[3]@[i]@ == CellV::Int(ps[i].pid) && b.columns@[4]@[i]@
                                == CellV::Int(ps[i].rss) && b.columns@[5]@[i]@ == str_cell_of(
                                ps[i].started,
                            ) && b.columns@[6]@[i]@ == str_cell_of(ps[i].stat)
                                && b.columns@[7]@[i]@ == CellV::Str(ps[i].time)
                                && b.columns@[8]@[i]@ == str_cell_of(ps[i].tty)
                                && b.columns@[9]@[i]@ == CellV::Str(ps[i].user)
                                && b.columns@[10]@[i]@ == CellV::Int(ps[i].vsz)),
                        None => r == Err::<Batch, ScanError>(ScanError::SchemaMismatch),
                    },
                    _ => r == Err::<Batch, ScanError>(ScanError::ParseFailure),
                },
                None => r == Err::<Batch, ScanError>(ScanError::ParseFailure),
            },
    {
        match parse(jc_output) {
            Ok(processes) => Ok(processes_to_batch(&processes)),
            Err(e) => Err(e),
        }
    }
}

} // verus!
