use cmdtable::commands::{
    date_table_func, dpkg_list_table_func, ps_table_func, table_func_for, uptime_table_func,
};
use cmdtable::errors::ScanError;
use cmdtable::schema::DType;

#[test]
fn ps_table_shape() {
    let t = ps_table_func();
    assert_eq!(t.command, vec!["ps".to_string(), "aux".to_string()]);
    assert_eq!(t.jc_parser, "ps");
    assert!(t.is_result_array);
    assert_eq!(t.schema.len(), 11);
    assert_eq!(t.schema[0].name, "user");
    assert_eq!(t.schema[0].dtype, DType::Utf8);
    assert!(t.schema[0].nullable);
    assert_eq!(t.schema[1].name, "pid");
    assert_eq!(t.schema[1].dtype, DType::Int64);
    assert_eq!(t.schema[9].name, "cpu_percent");
    assert_eq!(t.schema[9].dtype, DType::Float64);
}

#[test]
fn uptime_and_date_are_single_shaped() {
    assert!(!uptime_table_func().is_result_array);
    assert!(!date_table_func().is_result_array);
}

#[test]
fn dpkg_list_uses_its_own_parser_name() {
    let t = dpkg_list_table_func();
    assert_eq!(t.jc_parser, "dpkg-l");
    assert_eq!(t.command, vec!["dpkg".to_string(), "-l".to_string()]);
}

#[test]
fn registry_resolves_known_tables() {
    let t = table_func_for("ps").unwrap();
    assert_eq!(t.jc_parser, "ps");
    let t = table_func_for("free").unwrap();
    assert_eq!(t.command, vec!["free".to_string()]);
    assert_eq!(t.schema.len(), 7);
}

#[test]
fn registry_covers_every_declared_table() {
    for name in [
        "ps", "uptime", "who", "ls", "stat", "df", "du", "blkid", "env", "date", "dir",
        "dpkg_list", "file", "find", "free",
    ] {
        assert!(table_func_for(name).is_ok(), "{name} should resolve");
    }
}

#[test]
fn registry_rejects_unknown_table() {
    assert!(matches!(table_func_for("nonesuch"), Err(ScanError::UnknownTable)));
    assert!(matches!(table_func_for(""), Err(ScanError::UnknownTable)));
}
