use vstd::prelude::*;
use crate::decode::{decode_all, decode_stream, records_of};
use crate::errors::ScanError;
use crate::normalize::{normalize, normalize_array_spec};
use crate::schema::{Batch, FieldSpec, FieldV};
use crate::text::str_to_chars;

verus! {

/// A call-site argument of a table-function invocation, as the binder reads
/// it: a literal value, an application of the host-selector function to its
/// own arguments, or any other expression.
#[derive(Debug)]
pub enum ArgExpr {
    Literal(String),
    HostCall(Vec<ArgExpr>),
    Other,
}

/// The string a call argument reduces to: its value for a literal, the empty
/// string for anything else.
pub open spec fn literal_of(e: ArgExpr) -> Seq<char> {
    match e {
        ArgExpr::Literal(s) => s@,
        _ => Seq::empty(),
    }
}

pub open spec fn literals_of(exprs: Seq<ArgExpr>) -> Seq<Seq<char>> {
    Seq::new(exprs.len(), |i: int| literal_of(exprs[i]))
}

/// The host alias a call binds to: the literal first argument of a leading
/// host-selector application, or the local sentinel.
pub open spec fn bound_host(exprs: Seq<ArgExpr>) -> Seq<char> {
    if exprs.len() > 0 {
        match exprs[0] {
            ArgExpr::HostCall(fargs) => if fargs@.len() > 0 {
                match fargs@[0] {
                    ArgExpr::Literal(h) => h@,
                    _ => "localhost"@,
                }
            } else {
                "localhost"@
            },
            _ => "localhost"@,
        }
    } else {
        "localhost"@
    }
}

/// The extra argv tokens a call binds to: every argument after a leading
/// host-selector application, or every argument when there is none, each
/// reduced to a literal.
pub open spec fn bound_args(exprs: Seq<ArgExpr>) -> Seq<Seq<char>> {
    if exprs.len() > 0 && exprs[0] is HostCall {
        literals_of(exprs.skip(1))
    } else {
        literals_of(exprs)
    }
}

/// Reduces each argument expression to a literal string; an expression that
/// is not a literal becomes the empty string rather than failing the bind.
pub fn get_values_from_literals(exprs: &[ArgExpr]) -> (r: Vec<String>)
    ensures
        r.deep_view() == literals_of(exprs@),
{
    let mut out: Vec<String> = Vec::new();
    let mut k: usize = 0;
    while k < exprs.len()
        invariant
            0 <= k <= exprs@.len(),
            out@.len() == k,
            out.deep_view() =~~= literals_of(exprs@).subrange(0, k as int),
        decreases exprs@.len() - k,
    {
        let v: String = match &exprs[k] {
            ArgExpr::Literal(s) => s.clone(),
            _ => String::new(),
        };
        out.push(v);
        assert(out.deep_view() =~~= literals_of(exprs@).subrange(0, k + 1 as int));
        k = k + 1;
    }
    proof {
        assert(out.deep_view() =~~= literals_of(exprs@));
    }
    out
}

/// The immutable descriptor of one logical table: the base argv of its
/// command, the output-parser identifier, the declared schema, and whether
/// the parsed output is a JSON array or a single object.
#[derive(Debug)]
pub struct CommandTableFunc {
    pub command: Vec<String>,
    pub jc_parser: String,
    pub schema: Vec<FieldSpec>,
    pub is_result_array: bool,
}

/// Mathematical image of a `CommandTableFunc`.
#[verifier::ext_equal]
pub struct CommandTableFuncV {
    pub command: Seq<Seq<char>>,
    pub jc_parser: Seq<char>,
    pub schema: Seq<FieldV>,
    pub is_result_array: bool,
}

impl View for CommandTableFunc {
    type V = CommandTableFuncV;

    open spec fn view(&self) -> CommandTableFuncV {
        CommandTableFuncV {
            command: self.command.deep_view(),
            jc_parser: self.jc_parser@,
            schema: self.schema.deep_view(),
            is_result_array: self.is_result_array,
        }
    }
}

/// One bound table-function invocation: a resolved descriptor, a target host
/// (the sentinel "localhost" meaning the local backend), and extra argv.
#[derive(Debug)]
pub struct CommandTable {
    pub command: Vec<String>,
    pub jc_parser: String,
    pub schema: Vec<FieldSpec>,
    pub is_result_array: bool,
    pub hostname: String,
    pub args: Vec<String>,
}

/// Mathematical image of a `CommandTable`.
#[verifier::ext_equal]
pub struct CommandTableV {
    pub command: Seq<Seq<char>>,
    pub jc_parser: Seq<char>,
    pub schema: Seq<FieldV>,
    pub is_result_array: bool,
    pub hostname: Seq<char>,
    pub args: Seq<Seq<char>>,
}

impl View for CommandTable {
    type V = CommandTableV;

    open spec fn view(&self) -> CommandTableV {
        CommandTableV {
            command: self.command.deep_view(),
            jc_parser: self.jc_parser@,
            schema: self.schema.deep_view(),
            is_result_array: self.is_result_array,
            hostname: self.hostname@,
            args: self.args.deep_view(),
        }
    }
}

fn clone_strings(v: &Vec<String>) -> (r: Vec<String>)
    ensures
        r.deep_view() == v.deep_view(),
{
    let mut out: Vec<String> = Vec::new();
    let mut k: usize = 0;
    while k < v.len()
        invariant
            0 <= k <= v@.len(),
            out@.len() == k,
            out.deep_view() =~~= v.deep_view().subrange(0, k as int),
        decreases v@.len() - k,
    {
        out.push(v[k].clone());
        assert(out.deep_view() =~~= v.deep_view().subrange(0, k + 1 as int));
        k = k + 1;
    }
    proof {
        assert(out.deep_view() =~~= v.deep_view());
    }
    out
}

fn clone_fields(v: &Vec<FieldSpec>) -> (r: Vec<FieldSpec>)
    ensures
        r.deep_view() == v.deep_view(),
{
    let mut out: Vec<FieldSpec> = Vec::new();
    let mut k: usize = 0;
    while k < v.len()
        invariant
            0 <= k <= v@.len(),
            out@.len() == k,
            out.deep_view() =~~= v.deep_view().subrange(0, k as int),
        decreases v@.len() - k,
    {
        let f = &v[k];
        out.push(FieldSpec { name: f.name.clone(), dtype: f.dtype, nullable: f.nullable });
        assert(out.deep_view() =~~= v.deep_view().subrange(0, k + 1 as int));
        k = k + 1;
    }
    proof {
        assert(out.deep_view() =~~= v.deep_view());
    }
    out
}

impl CommandTableFunc {
    /// Binds the call-site arguments of a table-function invocation: a
    /// leading host-selector application names the target host and the rest
    /// of the arguments become extra argv tokens; without one the target is
    /// local and every argument becomes an extra argv token. Binding is
    /// permissive and never fails.
    pub fn call(&self, exprs: &[ArgExpr]) -> (r: CommandTable)
        ensures
            r@.command == self@.command,
            r@.jc_parser == self@.jc_parser,
            r@.schema == self@.schema,
            r@.is_result_array == self.is_result_array,
            r@.hostname == bound_host(exprs@),
            r@.args == bound_args(exprs@),
    {
        let mut hostname: String = "localhost".to_owned();
        let mut args: Vec<String> = Vec::new();
        if exprs.len() > 0 {
            match &exprs[0] {
                ArgExpr::HostCall(fargs) => {
                    if fargs.len() > 0 {
                        match &fargs[0] {
                            ArgExpr::Literal(h) => {
                                hostname = h.clone();
                            },
                            _ => {},
                        }
                    }
                    args = get_values_from_literals(slice_tail(exprs, 1));
                },
                _ => {
                    args = get_values_from_literals(exprs);
                },
            }
        }
        CommandTable {
            command: clone_strings(&self.command),
            jc_parser: self.jc_parser.clone(),
            schema: clone_fields(&self.schema),
            is_result_array: self.is_result_array,
            hostname,
            args,
        }
    }
}

/// The arguments after the first `n`.
fn slice_tail(exprs: &[ArgExpr], n: usize) -> (r: &[ArgExpr])
    requires
        n <= exprs@.len(),
    ensures
        r@ == exprs@.skip(n as int),
{
    let r = &exprs[n..exprs.len()];
    proof {
        assert(r@ =~= exprs@.skip(n as int));
    }
    r
}

/// What the user's secure-shell configuration yields for a host alias: each
/// field absent when no rule supplies it.
#[derive(Debug)]
pub struct RemoteParams {
    pub host_name: Option<String>,
    pub port: Option<u16>,
    pub user: Option<String>,
}

/// A fully resolved remote target.
#[derive(Debug)]
pub struct RemoteTarget {
    pub host_name: String,
    pub port: u16,
    pub user: String,
}

/// Resolves the looked-up configuration of a host alias: an alias with no
/// resolvable host name fails with `RemoteConnectFailure` before anything is
/// spawned or connected; otherwise the port defaults to 22 and the user to
/// "root".
pub fn resolve_remote_target(params: RemoteParams) -> (r: Result<RemoteTarget, ScanError>)
    ensures
        params.host_name matches Some(h) ==> r matches Ok(t) && t.host_name@ == h@ && t.port
            == (match params.port {
            Some(p) => p,
            None => 22u16,
        }) && t.user@ == (match params.user {
            Some(u) => u@,
            None => "root"@,
        }),
        params.host_name is None ==> r == Err::<RemoteTarget, ScanError>(
            ScanError::RemoteConnectFailure,
        ),
{
    match params.host_name {
        None => Err(ScanError::RemoteConnectFailure),
        Some(h) => {
            let port = match params.port {
                Some(p) => p,
                None => 22,
            };
            let user = match params.user {
                Some(u) => u,
                None => "root".to_owned(),
            };
            Ok(RemoteTarget { host_name: h, port, user })
        },
    }
}

/// The parts joined by single spaces, in order.
pub open spec fn space_joined(parts: Seq<Seq<char>>, n: int) -> Seq<char>
    decreases n,
{
    if n <= 0 || parts.len() < n {
        Seq::empty()
    } else if n == 1 {
        parts[0]
    } else {
        space_joined(parts, n - 1) + seq![' '] + parts[n - 1]
    }
}

/// Builds the single command line submitted over a remote channel: the base
/// argv and the extra argv tokens, space-joined in order.
pub fn build_command_line(command: &Vec<String>, args: &Vec<String>) -> (r: String)
    ensures
        ({
            let parts = command.deep_view() + args.deep_view();
            r@ == space_joined(parts, parts.len() as int)
        }),
{
    let ghost parts = command.deep_view() + args.deep_view();
    let mut out: Vec<char> = Vec::new();
    let mut k: usize = 0;
    while k < command.len()
        invariant
            parts == command.deep_view() + args.deep_view(),
            parts.len() == command@.len() + args@.len(),
            forall|i: int| 0 <= i < command@.len() ==> parts[i] == command@[i]@,
            forall|i: int|
                0 <= i < args@.len() ==> parts[command@.len() + i] == args@[i]@,
            0 <= k <= command@.len(),
            out@ == space_joined(parts, k as int),
        decreases command@.len() - k,
    {
        if k > 0 {
            out.push(' ');
        }
        let mut piece = str_to_chars(command[k].as_str());
        out.append(&mut piece);
        assert(out@ =~= space_joined(parts, k + 1 as int));
        k = k + 1;
    }
    let mut k: usize = 0;
    while k < args.len()
        invariant
            parts == command.deep_view() + args.deep_view(),
            parts.len() == command@.len() + args@.len(),
            forall|i: int| 0 <= i < command@.len() ==> parts[i] == command@[i]@,
            forall|i: int|
                0 <= i < args@.len() ==> parts[command@.len() + i] == args@[i]@,
            0 <= k <= args@.len(),
            out@ == space_joined(parts, command@.len() + k as int),
        decreases args@.len() - k,
    {
        if command.len() > 0 || k > 0 {
            out.push(' ');
        }
        let mut piece = str_to_chars(args[k].as_str());
        out.append(&mut piece);
        assert(out@ =~= space_joined(parts, command@.len() + (k + 1) as int));
        k = k + 1;
    }
    crate::text::chars_to_string(&out)
}

impl CommandTable {
    /// Decodes one scan's worth of parser output into a columnar batch: the
    /// text is normalized under the table's result shape, then decoded
    /// against its declared schema. Every failure aborts the whole scan.
    pub fn scan_output(&self, parser_output: &str) -> (r: Result<Batch, ScanError>)
        ensures
            ({
                let stage: Result<Seq<char>, ScanError> = if self.is_result_array {
                    normalize_array_spec(parser_output@)
                } else {
                    Ok(parser_output@)
                };
                match stage {
                    Err(e) => r == Err::<Batch, ScanError>(e),
                    Ok(norm) => match records_of(norm) {
                        None => r == Err::<Batch, ScanError>(ScanError::ParseFailure),
                        Some(records) => match decode_all(
                            self.schema.deep_view(),
                            records,
                            records.len() as int,
                        ) {
                            Some(rows) => r matches Ok(b) && b.well_formed()
                                && b.fields.deep_view() == self.schema.deep_view()
                                && b.columns@.len() == self.schema@.len()
                                && b.spec_num_rows() == records.len() && (forall|
                                i: int,
                                k: int,
                            |
                                0 <= i < records.len() && 0 <= k < self.schema@.len()
                                    ==> (#[trigger] b.columns@[k]@[i]@) == rows[i][k]),
                            None => r == Err::<Batch, ScanError>(ScanError::SchemaMismatch),
                        },
                    },
                }
            }),
    {
        match normalize(parser_output, self.is_result_array) {
            Err(e) => Err(e),
            Ok(norm) => decode_stream(norm.as_str(), &self.schema),
        }
    }
}

} // verus!
