use driveinfo::json::ReportError;
use driveinfo::record::DriveInfo;
use driveinfo::render::Widths;
use driveinfo::text::{has_substring, split_lines, split_tokens};
use driveinfo::usage::{level_of, utilization, Level};

const DF_OUTPUT: &str = "Filesystem      Size  Used Avail Use% Mounted on\n\
udev            8.3G     0  8.3G   0% /dev\n\
tmpfs           1.7G  2.1M  1.7G   1% /run\n\
/dev/sda2       109G   54G   50G  52% /drives/breen\n\
/dev/sdb1       1.0T  900G  100G  90% /data\n";

fn record(fs: &str, size: &str, used: &str, avail: &str, pct: &str, mnt: &str) -> DriveInfo {
    DriveInfo {
        filesystem: fs.to_string(),
        mount_point: mnt.to_string(),
        size: size.to_string(),
        used: used.to_string(),
        avail: avail.to_string(),
        percent_used: pct.to_string(),
    }
}

fn fields(d: &DriveInfo) -> [&str; 6] {
    [
        d.filesystem.as_str(),
        d.mount_point.as_str(),
        d.size.as_str(),
        d.used.as_str(),
        d.avail.as_str(),
        d.percent_used.as_str(),
    ]
}

#[test]
fn parses_six_token_line_in_column_order() {
    let d = DriveInfo::parse_df_line("/dev/sda2 109G 54G 50G 52% /drives/breen").unwrap();
    assert_eq!(fields(&d), ["/dev/sda2", "/drives/breen", "109G", "54G", "50G", "52%"]);
}

#[test]
fn parses_line_with_runs_of_whitespace() {
    let d = DriveInfo::parse_df_line("  /dev/sda2 \t 109G   54G\t50G  52%   /drives/breen  ").unwrap();
    assert_eq!(fields(&d), ["/dev/sda2", "/drives/breen", "109G", "54G", "50G", "52%"]);
}

#[test]
fn rejects_lines_without_six_tokens() {
    assert!(DriveInfo::parse_df_line("/dev/sda2 109G 54G 50G 52%").is_none());
    assert!(DriveInfo::parse_df_line("/dev/sda2 109G 54G 50G 52% /drives/breen extra").is_none());
    assert!(DriveInfo::parse_df_line("").is_none());
    assert!(DriveInfo::parse_df_line("   ").is_none());
}

#[test]
fn null_record_holds_placeholder_everywhere() {
    let d = DriveInfo::null();
    assert_eq!(fields(&d), ["null"; 6]);
}

#[test]
fn scenario_restricted_mode_keeps_block_devices() {
    let drives = DriveInfo::parse_all_drives("/dev/sda2 109G 54G 50G 52% /drives/breen", false);
    assert_eq!(drives.len(), 1);
    assert_eq!(fields(&drives[0]), ["/dev/sda2", "/drives/breen", "109G", "54G", "50G", "52%"]);
    assert_eq!(level_of(utilization(&drives[0].percent_used)), Level::Caution);
    let lines = DriveInfo::pretty_print(&drives, true);
    assert_eq!(
        lines,
        vec![
            "\x1b[36m\x1b[1m/drives/breen\x1b[0m\tUsed: \x1b[33m\x1b[1m52% \x1b[0m\t\x1b[33m\x1b[1m50G\x1b[0m/\x1b[1m109G\x1b[0m available\t\x1b[1m/dev/sda2\x1b[0m".to_string()
        ]
    );
}

#[test]
fn restricted_mode_on_full_output() {
    let drives = DriveInfo::parse_all_drives(DF_OUTPUT, false);
    assert_eq!(drives.len(), 2);
    assert_eq!(drives[0].mount_point, "/drives/breen");
    assert_eq!(drives[1].mount_point, "/data");
}

#[test]
fn show_all_mode_drops_header_and_blank_lines() {
    let drives = DriveInfo::parse_all_drives(DF_OUTPUT, true);
    let mounts: Vec<&str> = drives.iter().map(|d| d.mount_point.as_str()).collect();
    assert_eq!(mounts, vec!["/dev", "/run", "/drives/breen", "/data"]);
}

#[test]
fn scenario_five_tokens_gives_invalid_record() {
    let drives = DriveInfo::parse_all_drives("/dev/sda2 109G 54G 50G 52%\n", true);
    assert_eq!(drives.len(), 1);
    assert_eq!(fields(&drives[0]), ["null"; 6]);
    assert_eq!(utilization(&drives[0].percent_used), 0);
    assert_eq!(level_of(utilization(&drives[0].percent_used)), Level::Healthy);
    let lines = DriveInfo::pretty_print(&drives, true);
    assert!(lines[0].contains("\x1b[32m\x1b[1mnull\x1b[0m"));
}

#[test]
fn scenario_json_two_records_in_order() {
    let drives = vec![
        record("/dev/sda2", "109G", "54G", "50G", "52%", "/drives/breen"),
        record("/dev/sdb1", "1.0T", "900G", "100G", "90%", "/data"),
    ];
    let doc = DriveInfo::json(&drives).unwrap();
    assert_eq!(
        doc,
        "[{\"filesystem\":\"/dev/sda2\",\"mount_point\":\"/drives/breen\",\"size\":\"109G\",\"used\":\"54G\",\"avail\":\"50G\",\"percent_used\":\"52%\"},\
{\"filesystem\":\"/dev/sdb1\",\"mount_point\":\"/data\",\"size\":\"1.0T\",\"used\":\"900G\",\"avail\":\"100G\",\"percent_used\":\"90%\"}]"
    );
    let value: serde_json::Value = serde_json::from_str(&doc).unwrap();
    let items = value.as_array().unwrap();
    assert_eq!(items.len(), 2);
    for item in items {
        assert_eq!(item.as_object().unwrap().len(), 6);
    }
    assert_eq!(items[0]["filesystem"], "/dev/sda2");
    assert_eq!(items[1]["filesystem"], "/dev/sdb1");
}

#[test]
fn json_of_no_records_is_empty_array() {
    assert_eq!(DriveInfo::json(&Vec::new()).unwrap(), "[]");
}

#[test]
fn json_round_trip_keeps_fields_and_order() {
    let drives = vec![
        record("a \"quoted\" fs", "1\\2", "tab\there", "ünï", "7%", "/mnt/x\ny"),
        DriveInfo::null(),
        record("/dev/sdc", "1G", "0", "1G", "0%", "/"),
    ];
    let doc = DriveInfo::json(&drives).unwrap();
    let value: serde_json::Value = serde_json::from_str(&doc).unwrap();
    let items = value.as_array().unwrap();
    assert_eq!(items.len(), drives.len());
    for (item, d) in items.iter().zip(drives.iter()) {
        let decoded = [
            item["filesystem"].as_str().unwrap(),
            item["mount_point"].as_str().unwrap(),
            item["size"].as_str().unwrap(),
            item["used"].as_str().unwrap(),
            item["avail"].as_str().unwrap(),
            item["percent_used"].as_str().unwrap(),
        ];
        assert_eq!(decoded, fields(d));
    }
}

#[test]
fn frame_json_uses_fields_verbatim() {
    let quoted = vec![record("1", "2", "3", "4", "5", "6")];
    assert_eq!(
        DriveInfo::frame_json(&quoted),
        "[{\"filesystem\":1,\"mount_point\":6,\"size\":2,\"used\":3,\"avail\":4,\"percent_used\":5}]"
    );
}

#[test]
fn scenario_empty_collection_prints_nothing() {
    let drives = DriveInfo::parse_all_drives("Filesystem Size Used Avail Use% Mounted on\n", false);
    assert!(drives.is_empty());
    assert!(DriveInfo::pretty_print(&drives, true).is_empty());
    assert_eq!(
        DriveInfo::column_widths(&drives),
        Widths { mount_point: 30, filesystem: 30, size: 30, avail: 30 }
    );
}

#[test]
fn level_boundaries() {
    assert_eq!(level_of(0), Level::Healthy);
    assert_eq!(level_of(39), Level::Healthy);
    assert_eq!(level_of(40), Level::Caution);
    assert_eq!(level_of(79), Level::Caution);
    assert_eq!(level_of(80), Level::Critical);
    assert_eq!(level_of(100), Level::Critical);
    assert_eq!(level_of(-5), Level::Healthy);
}

#[test]
fn utilization_reads_percent_text() {
    assert_eq!(utilization("52%"), 52);
    assert_eq!(utilization("100%"), 100);
    assert_eq!(utilization("0%"), 0);
    assert_eq!(utilization("+7%"), 7);
    assert_eq!(utilization("-3"), -3);
    assert_eq!(utilization("5%%"), 5);
    assert_eq!(utilization("007"), 7);
    assert_eq!(utilization("2147483647"), 2147483647);
    assert_eq!(utilization("-2147483648"), -2147483648);
    assert_eq!(utilization("2147483648"), 0);
    assert_eq!(utilization("99999999999999999999"), 0);
    assert_eq!(utilization("null"), 0);
    assert_eq!(utilization("%"), 0);
    assert_eq!(utilization("-"), 0);
    assert_eq!(utilization("4 2"), 0);
    assert_eq!(utilization("+"), 0);
}

#[test]
fn widths_cover_every_value() {
    let drives = vec![
        record("/dev/sda2", "109G", "54G", "50G", "52%", "/drives/breen"),
        record("/dev/mapper/long-name", "1.0T", "900G", "100G", "90%", "/"),
    ];
    let w = DriveInfo::column_widths(&drives);
    assert_eq!(w, Widths { mount_point: 13, filesystem: 21, size: 4, avail: 4 });
    for d in &drives {
        assert!(w.mount_point >= d.mount_point.chars().count());
        assert!(w.filesystem >= d.filesystem.chars().count());
        assert!(w.size >= d.size.chars().count());
        assert!(w.avail >= d.avail.chars().count());
    }
}

#[test]
fn longest_string_length_counts_characters() {
    let a = "abc".to_string();
    let b = "ünïcødé".to_string();
    assert_eq!(DriveInfo::find_longest_string_length(vec![&a, &b]), 7);
    assert_eq!(DriveInfo::find_longest_string_length(vec![&a]), 3);
    assert_eq!(DriveInfo::find_longest_string_length(Vec::new()), 30);
}

#[test]
fn insert_spacing_pads_without_truncating() {
    assert_eq!(DriveInfo::insert_spacing(5, "abc".to_string()), "abc  ");
    assert_eq!(DriveInfo::insert_spacing(2, "abcd".to_string()), "abcd");
    assert_eq!(DriveInfo::insert_spacing(3, String::new()), "   ");
    assert_eq!(DriveInfo::insert_spacing(4, "ü".to_string()), "ü   ");
}

#[test]
fn plain_rendering_layout() {
    let drives = vec![
        record("/dev/sda2", "109G", "54G", "50G", "52%", "/drives/breen"),
        record("/dev/sdb1", "1.0T", "900G", "100G", "90%", "/data"),
    ];
    let lines = DriveInfo::pretty_print(&drives, false);
    assert_eq!(
        lines,
        vec![
            "/drives/breen\tUsed: 52% \t50G /109G available\t/dev/sda2".to_string(),
            "/data        \tUsed: 90% \t100G/1.0T available\t/dev/sdb1".to_string(),
        ]
    );
}

#[test]
fn critical_rendering_is_red() {
    let d = record("/dev/sdb1", "1.0T", "900G", "100G", "90%", "/data");
    let w = Widths { mount_point: 5, filesystem: 9, size: 4, avail: 4 };
    assert_eq!(
        d.render_line(w, true),
        "\x1b[36m\x1b[1m/data\x1b[0m\tUsed: \x1b[31m\x1b[1m90% \x1b[0m\t\x1b[31m\x1b[1m100G\x1b[0m/\x1b[1m1.0T\x1b[0m available\t\x1b[1m/dev/sdb1\x1b[0m"
    );
}

#[test]
fn rendering_is_repeatable() {
    let drives = DriveInfo::parse_all_drives(DF_OUTPUT, true);
    assert_eq!(DriveInfo::pretty_print(&drives, true), DriveInfo::pretty_print(&drives, true));
    assert_eq!(DriveInfo::pretty_print(&drives, false), DriveInfo::pretty_print(&drives, false));
}

#[test]
fn text_helpers() {
    assert_eq!(split_tokens(" a\tbb  c \n"), vec!["a", "bb", "c"]);
    assert!(split_tokens(" \t ").is_empty());
    assert_eq!(split_lines("x\n\ny\n"), vec!["x", "", "y", ""]);
    assert_eq!(split_lines(""), vec![""]);
    assert!(has_substring("udev /dev/sda1", "/dev/sd"));
    assert!(!has_substring("/dev/nvme0n1p1", "/dev/sd"));
    assert!(has_substring("abc", ""));
    assert!(!has_substring("ab", "abc"));
    assert!(DriveInfo::is_shown("/dev/sda1 1G 1G 0 100% /", false));
    assert!(!DriveInfo::is_shown("Filesystem Size", true));
    assert!(!DriveInfo::is_shown("", true));
}

#[test]
fn error_variants_are_distinct() {
    assert_ne!(ReportError::ExternalTool, ReportError::Serialization);
}

#[test]
fn description_names_each_field() {
    let d = record("/dev/sda2", "109G", "54G", "50G", "52%", "/drives/breen");
    assert_eq!(
        d.to_string(),
        "DriveInfo: filesystem /dev/sda2, mounted on /drives/breen, size 109G, used 54G, available 50G, percent used 52%"
    );
}

#[test]
fn json_escapes_quotes_backslashes_and_controls() {
    let drives = vec![record("a\"b\\c", "\u{8}\t\n", "\u{c}\r", "\u{1}\u{1f}", "ü/", "x")];
    assert_eq!(
        DriveInfo::json(&drives).unwrap(),
        "[{\"filesystem\":\"a\\\"b\\\\c\",\"mount_point\":\"x\",\"size\":\"\\b\\t\\n\",\"used\":\"\\f\\r\",\"avail\":\"\\u0001\\u001f\",\"percent_used\":\"ü/\"}]"
    );
}

#[test]
fn json_of_show_all_report() {
    let out = "Filesystem Size Used Avail Use% Mounted on\n/dev/sda2 109G 54G 50G 52% /drives/breen\ntmpfs 1.7G 2.1M 1.7G 1% /run\n";
    let drives = DriveInfo::parse_all_drives(out, true);
    assert_eq!(
        DriveInfo::json(&drives).unwrap(),
        r#"[{"filesystem":"/dev/sda2","mount_point":"/drives/breen","size":"109G","used":"54G","avail":"50G","percent_used":"52%"},{"filesystem":"tmpfs","mount_point":"/run","size":"1.7G","used":"2.1M","avail":"1.7G","percent_used":"1%"}]"#
    );
}
