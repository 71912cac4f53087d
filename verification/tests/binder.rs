use cmdtable::commandtable::{
    ArgExpr, CommandTableFunc, RemoteParams, build_command_line, get_values_from_literals,
    resolve_remote_target,
};
use cmdtable::errors::ScanError;
use cmdtable::schema::{DType, FieldSpec};

fn sample_func() -> CommandTableFunc {
    CommandTableFunc {
        command: vec!["ps".to_string(), "aux".to_string()],
        jc_parser: "ps".to_string(),
        schema: vec![FieldSpec::new("user", DType::Utf8, true)],
        is_result_array: true,
    }
}

#[test]
fn binder_host_selector_names_remote_host() {
    let exprs = vec![
        ArgExpr::HostCall(vec![ArgExpr::Literal("db1".to_string())]),
        ArgExpr::Literal("-x".to_string()),
    ];
    let table = sample_func().call(&exprs);
    assert_eq!(table.hostname, "db1");
    assert_eq!(table.args, vec!["-x".to_string()]);
    assert_eq!(table.command, vec!["ps".to_string(), "aux".to_string()]);
    assert_eq!(table.jc_parser, "ps");
    assert!(table.is_result_array);
}

#[test]
fn binder_without_host_selector_is_local() {
    let exprs = vec![
        ArgExpr::Literal("-x".to_string()),
        ArgExpr::Literal("-y".to_string()),
    ];
    let table = sample_func().call(&exprs);
    assert_eq!(table.hostname, "localhost");
    assert_eq!(table.args, vec!["-x".to_string(), "-y".to_string()]);
}

#[test]
fn binder_empty_call_is_local_with_no_args() {
    let table = sample_func().call(&[]);
    assert_eq!(table.hostname, "localhost");
    assert!(table.args.is_empty());
}

#[test]
fn binder_non_literal_argument_becomes_empty_token() {
    let exprs = vec![ArgExpr::Literal("-x".to_string()), ArgExpr::Other];
    let table = sample_func().call(&exprs);
    assert_eq!(table.hostname, "localhost");
    assert_eq!(table.args, vec!["-x".to_string(), "".to_string()]);
}

#[test]
fn binder_non_literal_host_argument_falls_back_to_local() {
    let exprs = vec![ArgExpr::HostCall(vec![ArgExpr::Other])];
    let table = sample_func().call(&exprs);
    assert_eq!(table.hostname, "localhost");
    assert!(table.args.is_empty());
}

#[test]
fn literal_values_reduce_in_order() {
    let exprs = vec![
        ArgExpr::Literal("a".to_string()),
        ArgExpr::Other,
        ArgExpr::Literal("c".to_string()),
    ];
    let vals = get_values_from_literals(&exprs);
    assert_eq!(vals, vec!["a".to_string(), "".to_string(), "c".to_string()]);
}

#[test]
fn command_line_is_space_joined() {
    let command = vec!["ps".to_string(), "aux".to_string()];
    let args = vec!["-x".to_string()];
    assert_eq!(build_command_line(&command, &args), "ps aux -x");
    assert_eq!(build_command_line(&command, &vec![]), "ps aux");
}

#[test]
fn unresolvable_host_fails_before_anything_runs() {
    let params = RemoteParams { host_name: None, port: Some(2222), user: None };
    assert!(matches!(
        resolve_remote_target(params),
        Err(ScanError::RemoteConnectFailure)
    ));
}

#[test]
fn resolved_host_gets_documented_defaults() {
    let params = RemoteParams {
        host_name: Some("db1.example".to_string()),
        port: None,
        user: None,
    };
    let t = resolve_remote_target(params).unwrap();
    assert_eq!(t.host_name, "db1.example");
    assert_eq!(t.port, 22);
    assert_eq!(t.user, "root");
}

#[test]
fn resolved_host_keeps_configured_port_and_user() {
    let params = RemoteParams {
        host_name: Some("db1.example".to_string()),
        port: Some(2201),
        user: Some("ops".to_string()),
    };
    let t = resolve_remote_target(params).unwrap();
    assert_eq!(t.port, 2201);
    assert_eq!(t.user, "ops");
}

#[test]
fn error_kinds_have_fixed_descriptions() {
    assert_eq!(ScanError::UnknownTable.describe(), "unknown table");
    assert_eq!(
        ScanError::RemoteConnectFailure.describe(),
        "failed to reach the remote host"
    );
}
