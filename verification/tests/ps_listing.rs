use cmdtable::errors::ScanError;
use cmdtable::ps::{ProcessTableFunc, parse, processes_to_batch};
use cmdtable::schema::Cell;

const ONE_PROC: &str = "[{\"command\":\"init\",\"cpu_percent\":0.3,\"mem_percent\":1.5,\
\"pid\":1,\"rss\":1024,\"started\":\"Jan01\",\"stat\":\"Ss\",\"time\":\"0:01\",\
\"tty\":null,\"user\":\"root\",\"vsz\":4096}]";

#[test]
fn parse_extracts_process_fields() {
    let ps = parse(ONE_PROC).unwrap();
    assert_eq!(ps.len(), 1);
    let p = &ps[0];
    assert_eq!(p.command, "init");
    assert_eq!(p.cpu_percent.as_deref(), Some("0.3"));
    assert_eq!(p.mem_percent.as_deref(), Some("1.5"));
    assert_eq!(p.pid, 1);
    assert_eq!(p.rss, 1024);
    assert_eq!(p.started.as_deref(), Some("Jan01"));
    assert_eq!(p.stat.as_deref(), Some("Ss"));
    assert_eq!(p.time, "0:01");
    assert_eq!(p.tty, None);
    assert_eq!(p.user, "root");
    assert_eq!(p.vsz, 4096);
}

#[test]
fn parse_requires_the_mandatory_fields() {
    let r = parse("[{\"command\":\"init\",\"pid\":1}]");
    assert_eq!(r.err(), Some(ScanError::SchemaMismatch));
}

#[test]
fn parse_rejects_non_array_output() {
    assert_eq!(parse("{\"pid\": 1}").err(), Some(ScanError::ParseFailure));
    assert_eq!(parse("oops").err(), Some(ScanError::ParseFailure));
}

#[test]
fn parse_empty_listing_is_empty() {
    assert_eq!(parse("[]").unwrap().len(), 0);
}

#[test]
fn batch_holds_one_column_per_field() {
    let ps = parse(ONE_PROC).unwrap();
    let b = processes_to_batch(&ps);
    assert_eq!(b.num_rows(), 1);
    assert_eq!(b.num_columns(), 11);
    assert!(matches!(&b.columns[0][0], Cell::Str(s) if s == "init"));
    assert!(matches!(&b.columns[1][0], Cell::Num(t) if t == "0.3"));
    assert!(matches!(b.columns[3][0], Cell::Int(1)));
    // the absent tty surfaces as a null cell, never a silent default
    assert!(matches!(b.columns[8][0], Cell::Null));
    assert!(matches!(&b.columns[9][0], Cell::Str(s) if s == "root"));
    assert!(matches!(b.columns[10][0], Cell::Int(4096)));
}

#[test]
fn absent_optionals_surface_as_nulls() {
    let ps = parse("[{\"command\":\"k\",\"pid\":2,\"rss\":0,\"time\":\"0:00\",\
\"user\":\"root\",\"vsz\":0}]")
        .unwrap();
    let b = processes_to_batch(&ps);
    assert!(matches!(b.columns[1][0], Cell::Null));
    assert!(matches!(b.columns[2][0], Cell::Null));
    assert!(matches!(b.columns[5][0], Cell::Null));
    assert!(matches!(b.columns[6][0], Cell::Null));
    assert!(matches!(b.columns[8][0], Cell::Null));
}

#[test]
fn process_table_func_builds_batch() {
    let f = ProcessTableFunc {};
    let b = f.call(ONE_PROC).unwrap();
    assert_eq!(b.num_rows(), 1);
    assert_eq!(b.fields.len(), 11);
    assert_eq!(b.fields[0].name, "command");
    assert_eq!(f.call("nope").err(), Some(ScanError::ParseFailure));
}
