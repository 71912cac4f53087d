use vstd::prelude::*;
use crate::commandtable::{CommandTableFunc, CommandTableFuncV};
use crate::errors::ScanError;
use crate::schema::{DType, FieldSpec, FieldV};
use crate::text::str_eq;

verus! {

broadcast use vstd::string::group_string_axioms;

/// The declared descriptor of the `ps` logical table.
pub open spec fn ps_table_view() -> CommandTableFuncV {
    CommandTableFuncV {
        command: seq!["ps"@, "aux"@],
        jc_parser: "ps"@,
        schema: seq![
            FieldV { name: "user"@, dtype: DType::Utf8, nullable: true },
            FieldV { name: "pid"@, dtype: DType::Int64, nullable: true },
            FieldV { name: "vsz"@, dtype: DType::Int64, nullable: true },
            FieldV { name: "rss"@, dtype: DType::Int64, nullable: true },
            FieldV { name: "tt"@, dtype: DType::Utf8, nullable: true },
            FieldV { name: "stat"@, dtype: DType::Utf8, nullable: true },
            FieldV { name: "started"@, dtype: DType::Utf8, nullable: true },
            FieldV { name: "time"@, dtype: DType::Utf8, nullable: true },
            FieldV { name: "command"@, dtype: DType::Utf8, nullable: true },
            FieldV { name: "cpu_percent"@, dtype: DType::Float64, nullable: true },
            FieldV { name: "mem_percent"@, dtype: DType::Float64, nullable: true },
        ],
        is_result_array: true,
    }
}

pub fn ps_table_func() -> (r: CommandTableFunc)
    ensures
        r@ == ps_table_view(),
{
    let mut command: Vec<String> = Vec::new();
    command.push("ps".to_owned());
    command.push("aux".to_owned());
    let mut schema: Vec<FieldSpec> = Vec::new();
    schema.push(FieldSpec::new("user", DType::Utf8, true));
    schema.push(FieldSpec::new("pid", DType::Int64, true));
    schema.push(FieldSpec::new("vsz", DType::Int64, true));
    schema.push(FieldSpec::new("rss", DType::Int64, true));
    schema.push(FieldSpec::new("tt", DType::Utf8, true));
    schema.push(FieldSpec::new("stat", DType::Utf8, true));
    schema.push(FieldSpec::new("started", DType::Utf8, true));
    schema.push(FieldSpec::new("time", DType::Utf8, true));
    schema.push(FieldSpec::new("command", DType::Utf8, true));
    schema.push(FieldSpec::new("cpu_percent", DType::Float64, true));
    schema.push(FieldSpec::new("mem_percent", DType::Float64, true));
    let r = CommandTableFunc {
        command,
        jc_parser: "ps".to_owned(),
        schema,
        is_result_array: true,
    };
    proof {
        assert(r@.command =~~= ps_table_view().command);
        assert(r@.schema =~~= ps_table_view().schema);
        assert(r@ =~~= ps_table_view());
    }
    r
}

/// The declared descriptor of the `uptime` logical table.
pub open spec fn uptime_table_view() -> CommandTableFuncV {
    CommandTableFuncV {
        command: seq!["uptime"@],
        jc_parser: "uptime"@,
        schema: seq![
            FieldV { name: "uptime"@, dtype: DType::Utf8, nullable: true },
            FieldV { name: "users"@, dtype: DType::Int64, nullable: true },
            FieldV { name: "load_1m"@, dtype: DType::Float64, nullable: true },
            FieldV { name: "load_5m"@, dtype: DType::Float64, nullable: true },
            FieldV { name: "load_15m"@, dtype: DType::Float64, nullable: true },
            FieldV { name: "time_hour"@, dtype: DType::Int64, nullable: true },
            FieldV { name: "time_minute"@, dtype: DType::Int64, nullable: true },
            FieldV { name: "time_second"@, dtype: DType::Int64, nullable: true },
            FieldV { name: "uptime_days"@, dtype: DType::Int64, nullable: true },
            FieldV { name: "uptime_hours"@, dtype: DType::Int64, nullable: true },
            FieldV { name: "uptime_minutes"@, dtype: DType::Int64, nullable: true },
            FieldV { name: "uptime_total_seconds"@, dtype: DType::Int64, nullable: true },
        ],
        is_result_array: false,
    }
}

pub fn uptime_table_func() -> (r: CommandTableFunc)
    ensures
        r@ == uptime_table_view(),
{
    let mut command: Vec<String> = Vec::new();
    command.push("uptime".to_owned());
    let mut schema: Vec<FieldSpec> = Vec::new();
    schema.push(FieldSpec::new("uptime", DType::Utf8, true));
    schema.push(FieldSpec::new("users", DType::Int64, true));
    schema.push(FieldSpec::new("load_1m", DType::Float64, true));
    schema.push(FieldSpec::new("load_5m", DType::Float64, true));
    schema.push(FieldSpec::new("load_15m", DType::Float64, true));
    schema.push(FieldSpec::new("time_hour", DType::Int64, true));
    schema.push(FieldSpec::new("time_minute", DType::Int64, true));
    schema.push(FieldSpec::new("time_second", DType::Int64, true));
    schema.push(FieldSpec::new("uptime_days", DType::Int64, true));
    schema.push(FieldSpec::new("uptime_hours", DType::Int64, true));
    schema.push(FieldSpec::new("uptime_minutes", DType::Int64, true));
    schema.push(FieldSpec::new("uptime_total_seconds", DType::Int64, true));
    let r = CommandTableFunc {
        command,
        jc_parser: "uptime".to_owned(),
        schema,
        is_result_array: false,
    };
    proof {
        assert(r@.command =~~= uptime_table_view().command);
        assert(r@.schema =~~= uptime_table_view().schema);
        assert(r@ =~~= uptime_table_view());
    }
    r
}

/// The declared descriptor of the `who` logical table.
pub open spec fn who_table_view() -> CommandTableFuncV {
    CommandTableFuncV {
        command: seq!["who"@, "-a"@],
        jc_parser: "who"@,
        schema: seq![
            FieldV { name: "user"@, dtype: DType::Utf8, nullable: true },
            FieldV { name: "event"@, dtype: DType::Utf8, nullable: true },
            FieldV { name: "tty"@, dtype: DType::Utf8, nullable: true },
            FieldV { name: "time"@, dtype: DType::Utf8, nullable: true },
            FieldV { name: "epoch"@, dtype: DType::Int64, nullable: true },
        ],
        is_result_array: true,
    }
}

pub fn who_table_func() -> (r: CommandTableFunc)
    ensures
        r@ == who_table_view(),
{
    let mut command: Vec<String> = Vec::new();
    command.push("who".to_owned());
    command.push("-a".to_owned());
    let mut schema: Vec<FieldSpec> = Vec::new();
    schema.push(FieldSpec::new("user", DType::Utf8, true));
    schema.push(FieldSpec::new("event", DType::Utf8, true));
    schema.push(FieldSpec::new("tty", DType::Utf8, true));
    schema.push(FieldSpec::new("time", DType::Utf8, true));
    schema.push(FieldSpec::new("epoch", DType::Int64, true));
    let r = CommandTableFunc {
        command,
        jc_parser: "who".to_owned(),
        schema,
        is_result_array: true,
    };
    proof {
        assert(r@.command =~~= who_table_view().command);
        assert(r@.schema =~~= who_table_view().schema);
        assert(r@ =~~= who_table_view());
    }
    r
}

/// The declared descriptor of the `ls` logical table.
pub open spec fn ls_table_view() -> CommandTableFuncV {
    CommandTableFuncV {
        command: seq!["ls"@, "-lah"@],
        jc_parser: "ls"@,
        schema: seq![
            FieldV { name: "filename"@, dtype: DType::Utf8, nullable: true },
            FieldV { name: "flags"@, dtype: DType::Utf8, nullable: true },
            FieldV { name: "links"@, dtype: DType::Int64, nullable: true },
            FieldV { name: "owner"@, dtype: DType::Utf8, nullable: true },
            FieldV { name: "group"@, dtype: DType::Utf8, nullable: true },
            FieldV { name: "size"@, dtype: DType::Int64, nullable: true },
            FieldV { name: "date"@, dtype: DType::Utf8, nullable: true },
        ],
        is_result_array: true,
    }
}

pub fn ls_table_func() -> (r: CommandTableFunc)
    ensures
        r@ == ls_table_view(),
{
    let mut command: Vec<String> = Vec::new();
    command.push("ls".to_owned());
    command.push("-lah".to_owned());
    let mut schema: Vec<FieldSpec> = Vec::new();
    schema.push(FieldSpec::new("filename", DType::Utf8, true));
    schema.push(FieldSpec::new("flags", DType::Utf8, true));
    schema.push(FieldSpec::new("links", DType::Int64, true));
    schema.push(FieldSpec::new("owner", DType::Utf8, true));
    schema.push(FieldSpec::new("group", DType::Utf8, true));
    schema.push(FieldSpec::new("size", DType::Int64, true));
    schema.push(FieldSpec::new("date", DType::Utf8, true));
    let r = CommandTableFunc {
        command,
        jc_parser: "ls".to_owned(),
        schema,
        is_result_array: true,
    };
    proof {
        assert(r@.command =~~= ls_table_view().command);
        assert(r@.schema =~~= ls_table_view().schema);
        assert(r@ =~~= ls_table_view());
    }
    r
}

/// The declared descriptor of the `stat` logical table.
pub open spec fn stat_table_view() -> CommandTableFuncV {
    CommandTableFuncV {
        command: seq!["stat"@],
        jc_parser: "stat"@,
        schema: seq![
            FieldV { name: "file"@, dtype: DType::Utf8, nullable: true },
            FieldV { name: "unix_device"@, dtype: DType::Int64, nullable: true },
            FieldV { name: "inode"@, dtype: DType::Int64, nullable: true },
            FieldV { name: "flags"@, dtype: DType::Utf8, nullable: true },
            FieldV { name: "links"@, dtype: DType::Int64, nullable: true },
            FieldV { name: "user"@, dtype: DType::Utf8, nullable: true },
            FieldV { name: "group"@, dtype: DType::Utf8, nullable: true },
            FieldV { name: "rdev"@, dtype: DType::Int64, nullable: true },
            FieldV { name: "size"@, dtype: DType::Int64, nullable: true },
            FieldV { name: "access_time"@, dtype: DType::Utf8, nullable: true },
            FieldV { name: "modify_time"@, dtype: DType::Utf8, nullable: true },
            FieldV { name: "change_time"@, dtype: DType::Utf8, nullable: true },
            FieldV { name: "birth_time"@, dtype: DType::Utf8, nullable: true },
            FieldV { name: "block_size"@, dtype: DType::Int64, nullable: true },
            FieldV { name: "blocks"@, dtype: DType::Int64, nullable: true },
            FieldV { name: "unix_flags"@, dtype: DType::Utf8, nullable: true },
            FieldV { name: "access_time_epoch"@, dtype: DType::Int64, nullable: true },
            FieldV { name: "access_time_epoch_utc"@, dtype: DType::Int64, nullable: true },
            FieldV { name: "modify_time_epoch"@, dtype: DType::Int64, nullable: true },
            FieldV { name: "modify_time_epoch_utc"@, dtype: DType::Int64, nullable: true },
            FieldV { name: "change_time_epoch"@, dtype: DType::Int64, nullable: true },
            FieldV { name: "change_time_epoch_utc"@, dtype: DType::Int64, nullable: true },
            FieldV { name: "birth_time_epoch"@, dtype: DType::Int64, nullable: true },
            FieldV { name: "birth_time_epoch_utc"@, dtype: DType::Int64, nullable: true },
        ],
        is_result_array: true,
    }
}

pub fn stat_table_func() -> (r: CommandTableFunc)
    ensures
        r@ == stat_table_view(),
{
    let mut command: Vec<String> = Vec::new();
    command.push("stat".to_owned());
    let mut schema: Vec<FieldSpec> = Vec::new();
    schema.push(FieldSpec::new("file", DType::Utf8, true));
    schema.push(FieldSpec::new("unix_device", DType::Int64, true));
    schema.push(FieldSpec::new("inode", DType::Int64, true));
    schema.push(FieldSpec::new("flags", DType::Utf8, true));
    schema.push(FieldSpec::new("links", DType::Int64, true));
    schema.push(FieldSpec::new("user", DType::Utf8, true));
    schema.push(FieldSpec::new("group", DType::Utf8, true));
    schema.push(FieldSpec::new("rdev", DType::Int64, true));
    schema.push(FieldSpec::new("size", DType::Int64, true));
    schema.push(FieldSpec::new("access_time", DType::Utf8, true));
    schema.push(FieldSpec::new("modify_time", DType::Utf8, true));
    schema.push(FieldSpec::new("change_time", DType::Utf8, true));
    schema.push(FieldSpec::new("birth_time", DType::Utf8, true));
    schema.push(FieldSpec::new("block_size", DType::Int64, true));
    schema.push(FieldSpec::new("blocks", DType::Int64, true));
    schema.push(FieldSpec::new("unix_flags", DType::Utf8, true));
    schema.push(FieldSpec::new("access_time_epoch", DType::Int64, true));
    schema.push(FieldSpec::new("access_time_epoch_utc", DType::Int64, true));
    schema.push(FieldSpec::new("modify_time_epoch", DType::Int64, true));
    schema.push(FieldSpec::new("modify_time_epoch_utc", DType::Int64, true));
    schema.push(FieldSpec::new("change_time_epoch", DType::Int64, true));
    schema.push(FieldSpec::new("change_time_epoch_utc", DType::Int64, true));
    schema.push(FieldSpec::new("birth_time_epoch", DType::Int64, true));
    schema.push(FieldSpec::new("birth_time_epoch_utc", DType::Int64, true));
    let r = CommandTableFunc {
        command,
        jc_parser: "stat".to_owned(),
        schema,
        is_result_array: true,
    };
    proof {
        assert(r@.command =~~= stat_table_view().command);
        assert(r@.schema =~~= stat_table_view().schema);
        assert(r@ =~~= stat_table_view());
    }
    r
}

/// The declared descriptor of the `df` logical table.
pub open spec fn df_table_view() -> CommandTableFuncV {
    CommandTableFuncV {
        command: seq!["df"@, "-h"@],
        jc_parser: "df"@,
        schema: seq![
            FieldV { name: "filesystem"@, dtype: DType::Utf8, nullable: true },
            FieldV { name: "512_blocks"@, dtype: DType::Int64, nullable: true },
            FieldV { name: "used"@, dtype: DType::Int64, nullable: true },
            FieldV { name: "available"@, dtype: DType::Int64, nullable: true },
            FieldV { name: "iused"@, dtype: DType::Int64, nullable: true },
            FieldV { name: "ifree"@, dtype: DType::Int64, nullable: true },
            FieldV { name: "mounted_on"@, dtype: DType::Utf8, nullable: true },
            FieldV { name: "capacity_percent"@, dtype: DType::Int64, nullable: true },
            FieldV { name: "iused_percent"@, dtype: DType::Int64, nullable: true },
        ],
        is_result_array: true,
    }
}

pub fn df_table_func() -> (r: CommandTableFunc)
    ensures
        r@ == df_table_view(),
{
    let mut command: Vec<String> = Vec::new();
    command.push("df".to_owned());
    command.push("-h".to_owned());
    let mut schema: Vec<FieldSpec> = Vec::new();
    schema.push(FieldSpec::new("filesystem", DType::Utf8, true));
    schema.push(FieldSpec::new("512_blocks", DType::Int64, true));
    schema.push(FieldSpec::new("used", DType::Int64, true));
    schema.push(FieldSpec::new("available", DType::Int64, true));
    schema.push(FieldSpec::new("iused", DType::Int64, true));
    schema.push(FieldSpec::new("ifree", DType::Int64, true));
    schema.push(FieldSpec::new("mounted_on", DType::Utf8, true));
    schema.push(FieldSpec::new("capacity_percent", DType::Int64, true));
    schema.push(FieldSpec::new("iused_percent", DType::Int64, true));
    let r = CommandTableFunc {
        command,
        jc_parser: "df".to_owned(),
        schema,
        is_result_array: true,
    };
    proof {
        assert(r@.command =~~= df_table_view().command);
        assert(r@.schema =~~= df_table_view().schema);
        assert(r@ =~~= df_table_view());
    }
    r
}

/// The declared descriptor of the `du` logical table.
pub open spec fn du_table_view() -> CommandTableFuncV {
    CommandTableFuncV {
        command: seq!["du"@, "-h"@],
        jc_parser: "du"@,
        schema: seq![
            FieldV { name: "name"@, dtype: DType::Utf8, nullable: true },
            FieldV { name: "size"@, dtype: DType::Int64, nullable: true },
        ],
        is_result_array: true,
    }
}

pub fn du_table_func() -> (r: CommandTableFunc)
    ensures
        r@ == du_table_view(),
{
    let mut command: Vec<String> = Vec::new();
    command.push("du".to_owned());
    command.push("-h".to_owned());
    let mut schema: Vec<FieldSpec> = Vec::new();
    schema.push(FieldSpec::new("name", DType::Utf8, true));
    schema.push(FieldSpec::new("size", DType::Int64, true));
    let r = CommandTableFunc {
        command,
        jc_parser: "du".to_owned(),
        schema,
        is_result_array: true,
    };
    proof {
        assert(r@.command =~~= du_table_view().command);
        assert(r@.schema =~~= du_table_view().schema);
        assert(r@ =~~= du_table_view());
    }
    r
}

/// The declared descriptor of the `blkid` logical table.
pub open spec fn blkid_table_view() -> CommandTableFuncV {
    CommandTableFuncV {
        command: seq!["blkid"@],
        jc_parser: "blkid"@,
        schema: seq![
            FieldV { name: "device"@, dtype: DType::Utf8, nullable: true },
            FieldV { name: "uuid"@, dtype: DType::Utf8, nullable: true },
            FieldV { name: "type"@, dtype: DType::Utf8, nullable: true },
            FieldV { name: "usage"@, dtype: DType::Utf8, nullable: true },
            FieldV { name: "part_entry_scheme"@, dtype: DType::Utf8, nullable: true },
            FieldV { name: "part_entry_type"@, dtype: DType::Utf8, nullable: true },
            FieldV { name: "part_entry_flags"@, dtype: DType::Utf8, nullable: true },
            FieldV { name: "part_entry_number"@, dtype: DType::Int64, nullable: true },
            FieldV { name: "part_entry_offset"@, dtype: DType::Int64, nullable: true },
            FieldV { name: "part_entry_size"@, dtype: DType::Int64, nullable: true },
            FieldV { name: "part_entry_disk"@, dtype: DType::Utf8, nullable: true },
            FieldV { name: "id_fs_uuid"@, dtype: DType::Utf8, nullable: true },
            FieldV { name: "id_fs_uuid_enc"@, dtype: DType::Utf8, nullable: true },
            FieldV { name: "id_fs_version"@, dtype: DType::Utf8, nullable: true },
            FieldV { name: "id_fs_type"@, dtype: DType::Utf8, nullable: true },
            FieldV { name: "id_fs_usage"@, dtype: DType::Utf8, nullable: true },
            FieldV { name: "id_part_entry_scheme"@, dtype: DType::Utf8, nullable: true },
            FieldV { name: "id_part_entry_type"@, dtype: DType::Utf8, nullable: true },
            FieldV { name: "id_part_entry_flags"@, dtype: DType::Utf8, nullable: true },
            FieldV { name: "id_part_entry_number"@, dtype: DType::Int64, nullable: true },
            FieldV { name: "id_part_entry_offset"@, dtype: DType::Int64, nullable: true },
            FieldV { name: "id_part_entry_size"@, dtype: DType::Int64, nullable: true },
            FieldV { name: "id_part_entry_disk"@, dtype: DType::Utf8, nullable: true },
            FieldV { name: "id_iolimit_minimum_io_size"@, dtype: DType::Int64, nullable: true },
            FieldV { name: "id_iolimit_physical_sector_size"@, dtype: DType::Int64, nullable: true },
            FieldV { name: "id_iolimit_logical_sector_size"@, dtype: DType::Int64, nullable: true },
            FieldV { name: "minimum_io_size"@, dtype: DType::Int64, nullable: true },
            FieldV { name: "physical_sector_size"@, dtype: DType::Int64, nullable: true },
            FieldV { name: "logical_sector_size"@, dtype: DType::Int64, nullable: true },
        ],
        is_result_array: true,
    }
}

pub fn blkid_table_func() -> (r: CommandTableFunc)
    ensures
        r@ == blkid_table_view(),
{
    let mut command: Vec<String> = Vec::new();
    command.push("blkid".to_owned());
    let mut schema: Vec<FieldSpec> = Vec::new();
    schema.push(FieldSpec::new("device", DType::Utf8, true));
    schema.push(FieldSpec::new("uuid", DType::Utf8, true));
    schema.push(FieldSpec::new("type", DType::Utf8, true));
    schema.push(FieldSpec::new("usage", DType::Utf8, true));
    schema.push(FieldSpec::new("part_entry_scheme", DType::Utf8, true));
    schema.push(FieldSpec::new("part_entry_type", DType::Utf8, true));
    schema.push(FieldSpec::new("part_entry_flags", DType::Utf8, true));
    schema.push(FieldSpec::new("part_entry_number", DType::Int64, true));
    schema.push(FieldSpec::new("part_entry_offset", DType::Int64, true));
    schema.push(FieldSpec::new("part_entry_size", DType::Int64, true));
    schema.push(FieldSpec::new("part_entry_disk", DType::Utf8, true));
    schema.push(FieldSpec::new("id_fs_uuid", DType::Utf8, true));
    schema.push(FieldSpec::new("id_fs_uuid_enc", DType::Utf8, true));
    schema.push(FieldSpec::new("id_fs_version", DType::Utf8, true));
    schema.push(FieldSpec::new("id_fs_type", DType::Utf8, true));
    schema.push(FieldSpec::new("id_fs_usage", DType::Utf8, true));
    schema.push(FieldSpec::new("id_part_entry_scheme", DType::Utf8, true));
    schema.push(FieldSpec::new("id_part_entry_type", DType::Utf8, true));
    schema.push(FieldSpec::new("id_part_entry_flags", DType::Utf8, true));
    schema.push(FieldSpec::new("id_part_entry_number", DType::Int64, true));
    schema.push(FieldSpec::new("id_part_entry_offset", DType::Int64, true));
    schema.push(FieldSpec::new("id_part_entry_size", DType::Int64, true));
    schema.push(FieldSpec::new("id_part_entry_disk", DType::Utf8, true));
    schema.push(FieldSpec::new("id_iolimit_minimum_io_size", DType::Int64, true));
    schema.push(FieldSpec::new("id_iolimit_physical_sector_size", DType::Int64, true));
    schema.push(FieldSpec::new("id_iolimit_logical_sector_size", DType::Int64, true));
    schema.push(FieldSpec::new("minimum_io_size", DType::Int64, true));
    schema.push(FieldSpec::new("physical_sector_size", DType::Int64, true));
    schema.push(FieldSpec::new("logical_sector_size", DType::Int64, true));
    let r = CommandTableFunc {
        command,
        jc_parser: "blkid".to_owned(),
        schema,
        is_result_array: true,
    };
    proof {
        assert(r@.command =~~= blkid_table_view().command);
        assert(r@.schema =~~= blkid_table_view().schema);
        assert(r@ =~~= blkid_table_view());
    }
    r
}

/// The declared descriptor of the `env` logical table.
pub open spec fn env_table_view() -> CommandTableFuncV {
    CommandTableFuncV {
        command: seq!["env"@],
        jc_parser: "env"@,
        schema: seq![
            FieldV { name: "name"@, dtype: DType::Utf8, nullable: true },
            FieldV { name: "value"@, dtype: DType::Utf8, nullable: true },
        ],
        is_result_array: true,
    }
}

pub fn env_table_func() -> (r: CommandTableFunc)
    ensures
        r@ == env_table_view(),
{
    let mut command: Vec<String> = Vec::new();
    command.push("env".to_owned());
    let mut schema: Vec<FieldSpec> = Vec::new();
    schema.push(FieldSpec::new("name", DType::Utf8, true));
    schema.push(FieldSpec::new("value", DType::Utf8, true));
    let r = CommandTableFunc {
        command,
        jc_parser: "env".to_owned(),
        schema,
        is_result_array: true,
    };
    proof {
        assert(r@.command =~~= env_table_view().command);
        assert(r@.schema =~~= env_table_view().schema);
        assert(r@ =~~= env_table_view());
    }
    r
}

/// The declared descriptor of the `date` logical table.
pub open spec fn date_table_view() -> CommandTableFuncV {
    CommandTableFuncV {
        command: seq!["date"@],
        jc_parser: "date"@,
        schema: seq![
            FieldV { name: "year"@, dtype: DType::Int64, nullable: true },
            FieldV { name: "month"@, dtype: DType::Utf8, nullable: true },
            FieldV { name: "month_num"@, dtype: DType::Int64, nullable: true },
            FieldV { name: "day"@, dtype: DType::Int64, nullable: true },
            FieldV { name: "weekday"@, dtype: DType::Utf8, nullable: true },
            FieldV { name: "weekday_num"@, dtype: DType::Int64, nullable: true },
            FieldV { name: "hour"@, dtype: DType::Int64, nullable: true },
            FieldV { name: "hour_24"@, dtype: DType::Int64, nullable: true },
            FieldV { name: "minute"@, dtype: DType::Int64, nullable: true },
            FieldV { name: "second"@, dtype: DType::Int64, nullable: true },
            FieldV { name: "period"@, dtype: DType::Utf8, nullable: true },
            FieldV { name: "timezone"@, dtype: DType::Utf8, nullable: true },
            FieldV { name: "utc_offset"@, dtype: DType::Utf8, nullable: true },
            FieldV { name: "day_of_year"@, dtype: DType::Int64, nullable: true },
            FieldV { name: "week_of_year"@, dtype: DType::Int64, nullable: true },
            FieldV { name: "iso"@, dtype: DType::Utf8, nullable: true },
            FieldV { name: "epoch"@, dtype: DType::Int64, nullable: true },
            FieldV { name: "epoch_utc"@, dtype: DType::Int64, nullable: true },
            FieldV { name: "timezone_aware"@, dtype: DType::Boolean, nullable: true },
        ],
        is_result_array: false,
    }
}

pub fn date_table_func() -> (r: CommandTableFunc)
    ensures
        r@ == date_table_view(),
{
    let mut command: Vec<String> = Vec::new();
    command.push("date".to_owned());
    let mut schema: Vec<FieldSpec> = Vec::new();
    schema.push(FieldSpec::new("year", DType::Int64, true));
    schema.push(FieldSpec::new("month", DType::Utf8, true));
    schema.push(FieldSpec::new("month_num", DType::Int64, true));
    schema.push(FieldSpec::new("day", DType::Int64, true));
    schema.push(FieldSpec::new("weekday", DType::Utf8, true));
    schema.push(FieldSpec::new("weekday_num", DType::Int64, true));
    schema.push(FieldSpec::new("hour", DType::Int64, true));
    schema.push(FieldSpec::new("hour_24", DType::Int64, true));
    schema.push(FieldSpec::new("minute", DType::Int64, true));
    schema.push(FieldSpec::new("second", DType::Int64, true));
    schema.push(FieldSpec::new("period", DType::Utf8, true));
    schema.push(FieldSpec::new("timezone", DType::Utf8, true));
    schema.push(FieldSpec::new("utc_offset", DType::Utf8, true));
    schema.push(FieldSpec::new("day_of_year", DType::Int64, true));
    schema.push(FieldSpec::new("week_of_year", DType::Int64, true));
    schema.push(FieldSpec::new("iso", DType::Utf8, true));
    schema.push(FieldSpec::new("epoch", DType::Int64, true));
    schema.push(FieldSpec::new("epoch_utc", DType::Int64, true));
    schema.push(FieldSpec::new("timezone_aware", DType::Boolean, true));
    let r = CommandTableFunc {
        command,
        jc_parser: "date".to_owned(),
        schema,
        is_result_array: false,
    };
    proof {
        assert(r@.command =~~= date_table_view().command);
        assert(r@.schema =~~= date_table_view().schema);
        assert(r@ =~~= date_table_view());
    }
    r
}

/// The declared descriptor of the `dir` logical table.
pub open spec fn dir_table_view() -> CommandTableFuncV {
    CommandTableFuncV {
        command: seq!["dir"@],
        jc_parser: "dir"@,
        schema: seq![
            FieldV { name: "date"@, dtype: DType::Utf8, nullable: true },
            FieldV { name: "time"@, dtype: DType::Utf8, nullable: true },
            FieldV { name: "epoch"@, dtype: DType::Int64, nullable: true },
            FieldV { name: "dir"@, dtype: DType::Boolean, nullable: true },
            FieldV { name: "size"@, dtype: DType::Int64, nullable: true },
            FieldV { name: "filename"@, dtype: DType::Utf8, nullable: true },
            FieldV { name: "parent"@, dtype: DType::Utf8, nullable: true },
        ],
        is_result_array: true,
    }
}

pub fn dir_table_func() -> (r: CommandTableFunc)
    ensures
        r@ == dir_table_view(),
{
    let mut command: Vec<String> = Vec::new();
    command.push("dir".to_owned());
    let mut schema: Vec<FieldSpec> = Vec::new();
    schema.push(FieldSpec::new("date", DType::Utf8, true));
    schema.push(FieldSpec::new("time", DType::Utf8, true));
    schema.push(FieldSpec::new("epoch", DType::Int64, true));
    schema.push(FieldSpec::new("dir", DType::Boolean, true));
    schema.push(FieldSpec::new("size", DType::Int64, true));
    schema.push(FieldSpec::new("filename", DType::Utf8, true));
    schema.push(FieldSpec::new("parent", DType::Utf8, true));
    let r = CommandTableFunc {
        command,
        jc_parser: "dir".to_owned(),
        schema,
        is_result_array: true,
    };
    proof {
        assert(r@.command =~~= dir_table_view().command);
        assert(r@.schema =~~= dir_table_view().schema);
        assert(r@ =~~= dir_table_view());
    }
    r
}

/// The declared descriptor of the `dpkg_list` logical table.
pub open spec fn dpkg_list_table_view() -> CommandTableFuncV {
    CommandTableFuncV {
        command: seq!["dpkg"@, "-l"@],
        jc_parser: "dpkg-l"@,
        schema: seq![
            FieldV { name: "codes"@, dtype: DType::Utf8, nullable: true },
            FieldV { name: "name"@, dtype: DType::Utf8, nullable: true },
            FieldV { name: "version"@, dtype: DType::Utf8, nullable: true },
            FieldV { name: "architecture"@, dtype: DType::Utf8, nullable: true },
            FieldV { name: "description"@, dtype: DType::Utf8, nullable: true },
            FieldV { name: "desired"@, dtype: DType::Utf8, nullable: true },
            FieldV { name: "status"@, dtype: DType::Utf8, nullable: true },
            FieldV { name: "error"@, dtype: DType::Utf8, nullable: true },
        ],
        is_result_array: true,
    }
}

pub fn dpkg_list_table_func() -> (r: CommandTableFunc)
    ensures
        r@ == dpkg_list_table_view(),
{
    let mut command: Vec<String> = Vec::new();
    command.push("dpkg".to_owned());
    command.push("-l".to_owned());
    let mut schema: Vec<FieldSpec> = Vec::new();
    schema.push(FieldSpec::new("codes", DType::Utf8, true));
    schema.push(FieldSpec::new("name", DType::Utf8, true));
    schema.push(FieldSpec::new("version", DType::Utf8, true));
    schema.push(FieldSpec::new("architecture", DType::Utf8, true));
    schema.push(FieldSpec::new("description", DType::Utf8, true));
    schema.push(FieldSpec::new("desired", DType::Utf8, true));
    schema.push(FieldSpec::new("status", DType::Utf8, true));
    schema.push(FieldSpec::new("error", DType::Utf8, true));
    let r = CommandTableFunc {
        command,
        jc_parser: "dpkg-l".to_owned(),
        schema,
        is_result_array: true,
    };
    proof {
        assert(r@.command =~~= dpkg_list_table_view().command);
        assert(r@.schema =~~= dpkg_list_table_view().schema);
        assert(r@ =~~= dpkg_list_table_view());
    }
    r
}

/// The declared descriptor of the `file` logical table.
pub open spec fn file_table_view() -> CommandTableFuncV {
    CommandTableFuncV {
        command: seq!["file"@],
        jc_parser: "file"@,
        schema: seq![
            FieldV { name: "filename"@, dtype: DType::Utf8, nullable: true },
            FieldV { name: "type"@, dtype: DType::Utf8, nullable: true },
        ],
        is_result_array: true,
    }
}

pub fn file_table_func() -> (r: CommandTableFunc)
    ensures
        r@ == file_table_view(),
{
    let mut command: Vec<String> = Vec::new();
    command.push("file".to_owned());
    let mut schema: Vec<FieldSpec> = Vec::new();
    schema.push(FieldSpec::new("filename", DType::Utf8, true));
    schema.push(FieldSpec::new("type", DType::Utf8, true));
    let r = CommandTableFunc {
        command,
        jc_parser: "file".to_owned(),
        schema,
        is_result_array: true,
    };
    proof {
        assert(r@.command =~~= file_table_view().command);
        assert(r@.schema =~~= file_table_view().schema);
        assert(r@ =~~= file_table_view());
    }
    r
}

/// The declared descriptor of the `find` logical table.
pub open spec fn find_table_view() -> CommandTableFuncV {
    CommandTableFuncV {
        command: seq!["find"@],
        jc_parser: "find"@,
        schema: seq![
            FieldV { name: "path"@, dtype: DType::Utf8, nullable: true },
            FieldV { name: "node"@, dtype: DType::Utf8, nullable: true },
            FieldV { name: "error"@, dtype: DType::Utf8, nullable: true },
        ],
        is_result_array: true,
    }
}

pub fn find_table_func() -> (r: CommandTableFunc)
    ensures
        r@ == find_table_view(),
{
    let mut command: Vec<String> = Vec::new();
    command.push("find".to_owned());
    let mut schema: Vec<FieldSpec> = Vec::new();
    schema.push(FieldSpec::new("path", DType::Utf8, true));
    schema.push(FieldSpec::new("node", DType::Utf8, true));
    schema.push(FieldSpec::new("error", DType::Utf8, true));
    let r = CommandTableFunc {
        command,
        jc_parser: "find".to_owned(),
        schema,
        is_result_array: true,
    };
    proof {
        assert(r@.command =~~= find_table_view().command);
        assert(r@.schema =~~= find_table_view().schema);
        assert(r@ =~~= find_table_view());
    }
    r
}

/// The declared descriptor of the `free` logical table.
pub open spec fn free_table_view() -> CommandTableFuncV {
    CommandTableFuncV {
        command: seq!["free"@],
        jc_parser: "free"@,
        schema: seq![
            FieldV { name: "type"@, dtype: DType::Utf8, nullable: true },
            FieldV { name: "total"@, dtype: DType::Int64, nullable: true },
            FieldV { name: "used"@, dtype: DType::Int64, nullable: true },
            FieldV { name: "free"@, dtype: DType::Int64, nullable: true },
            FieldV { name: "shared"@, dtype: DType::Int64, nullable: true },
            FieldV { name: "buff_cache"@, dtype: DType::Int64, nullable: true },
            FieldV { name: "available"@, dtype: DType::Int64, nullable: true },
        ],
        is_result_array: true,
    }
}

pub fn free_table_func() -> (r: CommandTableFunc)
    ensures
        r@ == free_table_view(),
{
    let mut command: Vec<String> = Vec::new();
    command.push("free".to_owned());
    let mut schema: Vec<FieldSpec> = Vec::new();
    schema.push(FieldSpec::new("type", DType::Utf8, true));
    schema.push(FieldSpec::new("total", DType::Int64, true));
    schema.push(FieldSpec::new("used", DType::Int64, true));
    schema.push(FieldSpec::new("free", DType::Int64, true));
    schema.push(FieldSpec::new("shared", DType::Int64, true));
    schema.push(FieldSpec::new("buff_cache", DType::Int64, true));
    schema.push(FieldSpec::new("available", DType::Int64, true));
    let r = CommandTableFunc {
        command,
        jc_parser: "free".to_owned(),
        schema,
        is_result_array: true,
    };
    proof {
        assert(r@.command =~~= free_table_view().command);
        assert(r@.schema =~~= free_table_view().schema);
        assert(r@ =~~= free_table_view());
    }
    r
}

/// The registry of logical tables: the descriptor for a logical table name,
/// or `UnknownTable` for a name no command specification exists for.
pub fn table_func_for(name: &str) -> (r: Result<CommandTableFunc, ScanError>)
    ensures
        name@ == "ps"@ ==> (r matches Ok(t) && t@ == ps_table_view()),
        name@ == "uptime"@ ==> (r matches Ok(t) && t@ == uptime_table_view()),
        name@ == "who"@ ==> (r matches Ok(t) && t@ == who_table_view()),
        name@ == "ls"@ ==> (r matches Ok(t) && t@ == ls_table_view()),
        name@ == "stat"@ ==> (r matches Ok(t) && t@ == stat_table_view()),
        name@ == "df"@ ==> (r matches Ok(t) && t@ == df_table_view()),
        name@ == "du"@ ==> (r matches Ok(t) && t@ == du_table_view()),
        name@ == "blkid"@ ==> (r matches Ok(t) && t@ == blkid_table_view()),
        name@ == "env"@ ==> (r matches Ok(t) && t@ == env_table_view()),
        name@ == "date"@ ==> (r matches Ok(t) && t@ == date_table_view()),
        name@ == "dir"@ ==> (r matches Ok(t) && t@ == dir_table_view()),
        name@ == "dpkg_list"@ ==> (r matches Ok(t) && t@ == dpkg_list_table_view()),
        name@ == "file"@ ==> (r matches Ok(t) && t@ == file_table_view()),
        name@ == "find"@ ==> (r matches Ok(t) && t@ == find_table_view()),
        name@ == "free"@ ==> (r matches Ok(t) && t@ == free_table_view()),
        !(name@ == "ps"@ || name@ == "uptime"@ || name@ == "who"@ || name@ == "ls"@ || name@ == "stat"@ || name@ == "df"@ || name@ == "du"@ || name@ == "blkid"@ || name@ == "env"@ || name@ == "date"@ || name@ == "dir"@ || name@ == "dpkg_list"@ || name@ == "file"@ || name@ == "find"@ || name@ == "free"@) ==> r == Err::<CommandTableFunc, ScanError>(ScanError::UnknownTable),
{
    proof {
        reveal_strlit("ps");
        reveal_strlit("uptime");
        reveal_strlit("who");
        reveal_strlit("ls");
        reveal_strlit("stat");
        reveal_strlit("df");
        reveal_strlit("du");
        reveal_strlit("blkid");
        reveal_strlit("env");
        reveal_strlit("date");
        reveal_strlit("dir");
        reveal_strlit("dpkg_list");
        reveal_strlit("file");
        reveal_strlit("find");
        reveal_strlit("free");
        assert("ps"@.len() == 2);
        assert("uptime"@.len() == 6);
        assert("who"@.len() == 3);
        assert("ls"@.len() == 2);
        assert("stat"@.len() == 4);
        assert("df"@.len() == 2);
        assert("du"@.len() == 2);
        assert("blkid"@.len() == 5);
        assert("env"@.len() == 3);
        assert("date"@.len() == 4);
        assert("dir"@.len() == 3);
        assert("dpkg_list"@.len() == 9);
        assert("file"@.len() == 4);
        assert("find"@.len() == 4);
        assert("free"@.len() == 4);
        assert("ps"@[0] == 'p');
        assert("uptime"@[0] == 'u');
        assert("who"@[0] == 'w');
        assert("ls"@[0] == 'l');
        assert("stat"@[0] == 's');
        assert("df"@[0] == 'd');
        assert("du"@[0] == 'd');
        assert("blkid"@[0] == 'b');
        assert("env"@[0] == 'e');
        assert("date"@[0] == 'd');
        assert("dir"@[0] == 'd');
        assert("dpkg_list"@[0] == 'd');
        assert("file"@[0] == 'f');
        assert("find"@[0] == 'f');
        assert("free"@[0] == 'f');
        assert("df"@[1] == 'f');
        assert("du"@[1] == 'u');
        assert("file"@[1] == 'i');
        assert("find"@[1] == 'i');
        assert("free"@[1] == 'r');
        assert("file"@[2] == 'l');
        assert("find"@[2] == 'n');
        assert("ps"@ != "ls"@);
        assert("ps"@ != "df"@);
        assert("ps"@ != "du"@);
        assert("who"@ != "env"@);
        assert("who"@ != "dir"@);
        assert("ls"@ != "df"@);
        assert("ls"@ != "du"@);
        assert("stat"@ != "date"@);
        assert("stat"@ != "file"@);
        assert("stat"@ != "find"@);
        assert("stat"@ != "free"@);
        assert("df"@ != "du"@);
        assert("env"@ != "dir"@);
        assert("date"@ != "file"@);
        assert("date"@ != "find"@);
        assert("date"@ != "free"@);
        assert("file"@ != "find"@);
        assert("file"@ != "free"@);
        assert("find"@ != "free"@);
    }
    if str_eq(name, "ps") {
        Ok(ps_table_func())
    } else if str_eq(name, "uptime") {
        Ok(uptime_table_func())
    } else if str_eq(name, "who") {
        Ok(who_table_func())
    } else if str_eq(name, "ls") {
        Ok(ls_table_func())
    } else if str_eq(name, "stat") {
        Ok(stat_table_func())
    } else if str_eq(name, "df") {
        Ok(df_table_func())
    } else if str_eq(name, "du") {
        Ok(du_table_func())
    } else if str_eq(name, "blkid") {
        Ok(blkid_table_func())
    } else if str_eq(name, "env") {
        Ok(env_table_func())
    } else if str_eq(name, "date") {
        Ok(date_table_func())
    } else if str_eq(name, "dir") {
        Ok(dir_table_func())
    } else if str_eq(name, "dpkg_list") {
        Ok(dpkg_list_table_func())
    } else if str_eq(name, "file") {
        Ok(file_table_func())
    } else if str_eq(name, "find") {
        Ok(find_table_func())
    } else if str_eq(name, "free") {
        Ok(free_table_func())
    } else {
        Err(ScanError::UnknownTable)
    }
}

} // verus!
