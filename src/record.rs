//! The record of one filesystem, the line parser, and the report builder
//! that turns a disk-usage tool's output into records.
use vstd::prelude::*;

use crate::text::{has_substring, lines, occurs_in, split_lines, split_tokens, tokens, views};

verus! {

/// One row of a disk-usage report. Every field keeps the tool's own text
/// (`109G`, `52%`).
pub struct DriveInfo {
    pub filesystem: String,
    pub mount_point: String,
    pub size: String,
    pub used: String,
    pub avail: String,
    pub percent_used: String,
}

/// What a `DriveInfo` holds, as character sequences.
pub struct DriveView {
    pub filesystem: Seq<char>,
    pub mount_point: Seq<char>,
    pub size: Seq<char>,
    pub used: Seq<char>,
    pub avail: Seq<char>,
    pub percent_used: Seq<char>,
}

impl View for DriveInfo {
    type V = DriveView;

    open spec fn view(&self) -> DriveView {
        DriveView {
            filesystem: self.filesystem@,
            mount_point: self.mount_point@,
            size: self.size@,
            used: self.used@,
            avail: self.avail@,
            percent_used: self.percent_used@,
        }
    }
}

pub open spec fn drive_views(v: Seq<DriveInfo>) -> Seq<DriveView> {
    v.map_values(|d: DriveInfo| d@)
}

/// The text that fills every field of the record standing for a line that
/// could not be parsed.
pub open spec fn placeholder() -> Seq<char> {
    "null"@
}

/// The record standing for a line that could not be parsed.
pub open spec fn invalid_record() -> DriveView {
    DriveView {
        filesystem: placeholder(),
        mount_point: placeholder(),
        size: placeholder(),
        used: placeholder(),
        avail: placeholder(),
        percent_used: placeholder(),
    }
}

/// The record of six tokens, taken in the tool's column order: filesystem,
/// size, used, available, percent used, mount point.
pub open spec fn record_of_tokens(t: Seq<Seq<char>>) -> DriveView {
    DriveView {
        filesystem: t[0],
        size: t[1],
        used: t[2],
        avail: t[3],
        percent_used: t[4],
        mount_point: t[5],
    }
}

/// The record of a line, if it has exactly six tokens.
pub open spec fn parse_line(line: Seq<char>) -> Option<DriveView> {
    if tokens(line).len() == 6 {
        Some(record_of_tokens(tokens(line)))
    } else {
        None
    }
}

/// The row that a line contributes to a report: its record, or the invalid
/// record where it has none.
pub open spec fn row_of_line(line: Seq<char>) -> DriveView {
    match parse_line(line) {
        Some(d) => d,
        None => invalid_record(),
    }
}

/// The marker of a real block device in the filesystem column.
pub open spec fn block_device_marker() -> Seq<char> {
    "/dev/sd"@
}

/// The title of the filesystem column, which marks the header line.
pub open spec fn header_marker() -> Seq<char> {
    "Filesystem"@
}

/// Which lines a report shows: only those of block devices, or, with
/// `show_all`, every line but the header and empty lines.
pub open spec fn shown(line: Seq<char>, show_all: bool) -> bool {
    if show_all {
        !occurs_in(header_marker(), line) && line.len() != 0
    } else {
        occurs_in(block_device_marker(), line)
    }
}

pub open spec fn shown_pred(show_all: bool) -> spec_fn(Seq<char>) -> bool {
    |line: Seq<char>| shown(line, show_all)
}

/// The rows of the report on a tool's output: one for each line shown, in
/// the order of the output.
pub open spec fn report_rows(out: Seq<char>, show_all: bool) -> Seq<DriveView> {
    lines(out).filter(shown_pred(show_all)).map_values(row_fn())
}

pub open spec fn row_fn() -> spec_fn(Seq<char>) -> DriveView {
    |l: Seq<char>| row_of_line(l)
}

/// A one-line description of a record, naming each field.
pub open spec fn description(d: DriveView) -> Seq<char> {
    "DriveInfo: filesystem "@ + d.filesystem + ", mounted on "@ + d.mount_point + ", size "@
        + d.size + ", used "@ + d.used + ", available "@ + d.avail + ", percent used "@
        + d.percent_used
}

impl DriveInfo {
    /// A one-line description of this record, naming each field.
    pub fn to_string(&self) -> (r: String)
        ensures
            r@ == description(self@),
    {
        let mut out = String::from_str("DriveInfo: filesystem ");
        out.append(self.filesystem.as_str());
        out.append(", mounted on ");
        out.append(self.mount_point.as_str());
        out.append(", size ");
        out.append(self.size.as_str());
        out.append(", used ");
        out.append(self.used.as_str());
        out.append(", available ");
        out.append(self.avail.as_str());
        out.append(", percent used ");
        out.append(self.percent_used.as_str());
        out
    }

    /// The record standing for a line that could not be parsed.
    pub fn null() -> (r: DriveInfo)
        ensures
            r@ == invalid_record(),
    {
        DriveInfo {
            filesystem: String::from_str("null"),
            mount_point: String::from_str("null"),
            size: String::from_str("null"),
            used: String::from_str("null"),
            avail: String::from_str("null"),
            percent_used: String::from_str("null"),
        }
    }

    /// Parses one line of the tool's output: a record where the line has
    /// exactly six tokens, `None` otherwise.
    pub fn parse_df_line(df_line: &str) -> (r: Option<DriveInfo>)
        ensures
            r matches Some(d) ==> tokens(df_line@).len() == 6 && d@ == record_of_tokens(
                tokens(df_line@),
            ),
            r is None <==> tokens(df_line@).len() != 6,
    {
        let t = split_tokens(df_line);
        if t.len() == 6 {
            proof {
                assert(t@[0]@ == tokens(df_line@)[0]);
                assert(t@[1]@ == tokens(df_line@)[1]);
                assert(t@[2]@ == tokens(df_line@)[2]);
                assert(t@[3]@ == tokens(df_line@)[3]);
                assert(t@[4]@ == tokens(df_line@)[4]);
                assert(t@[5]@ == tokens(df_line@)[5]);
            }
            Some(
                DriveInfo {
                    filesystem: t[0].clone(),
                    size: t[1].clone(),
                    used: t[2].clone(),
                    avail: t[3].clone(),
                    percent_used: t[4].clone(),
                    mount_point: t[5].clone(),
                },
            )
        } else {
            None
        }
    }

    /// The row for one shown line: its record, or the invalid record.
    pub fn row_for_line(line: &str) -> (r: DriveInfo)
        ensures
            r@ == row_of_line(line@),
    {
        match DriveInfo::parse_df_line(line) {
            Some(d) => d,
            None => DriveInfo::null(),
        }
    }

    /// Whether a report shows `line`.
    pub fn is_shown(line: &str, show_all_drives: bool) -> (r: bool)
        ensures
            r == shown(line@, show_all_drives),
    {
        if show_all_drives {
            !has_substring(line, "Filesystem") && line.unicode_len() != 0
        } else {
            has_substring(line, "/dev/sd")
        }
    }

    /// Builds the report on the output of the disk-usage tool: one row for
    /// each line shown, in order, where a line without six tokens gives the
    /// invalid record.
    pub fn parse_all_drives(df_out: &str, show_all_drives: bool) -> (r: Vec<DriveInfo>)
        ensures
            drive_views(r@) == report_rows(df_out@, show_all_drives),
    {
        let all = split_lines(df_out);
        let ghost lv = views(all@);
        let ghost pred = shown_pred(show_all_drives);
        let mut out: Vec<DriveInfo> = Vec::new();
        let mut k: usize = 0;
        assert(lv.subrange(0, 0).filter(pred) =~= Seq::<Seq<char>>::empty()) by {
            reveal(Seq::filter);
        }
        assert(drive_views(out@) =~= lv.subrange(0, 0).filter(pred).map_values(row_fn()));
        while k < all.len()
            invariant
                lv == views(all@),
                pred == shown_pred(show_all_drives),
                k <= all.len(),
                drive_views(out@) == lv.subrange(0, k as int).filter(pred).map_values(row_fn()),
            decreases all.len() - k,
        {
            let ghost f0 = lv.subrange(0, k as int).filter(pred);
            let ghost next = lv.subrange(0, k + 1);
            assert(next.drop_last() =~= lv.subrange(0, k as int));
            assert(next.last() == all@[k as int]@);
            assert(next.filter(pred) == if pred(next.last()) {
                f0.push(next.last())
            } else {
                f0
            }) by {
                reveal(Seq::filter);
            }
            let ghost oldv = out@;
            let line = all[k].as_str();
            if DriveInfo::is_shown(line, show_all_drives) {
                let row = DriveInfo::row_for_line(line);
                out.push(row);
                assert(next.filter(pred) =~= f0.push(lv[k as int]));
                assert(drive_views(out@) =~= drive_views(oldv).push(row@));
                assert(f0.push(lv[k as int]).map_values(row_fn()) =~= f0.map_values(row_fn()).push(
                    row_fn()(lv[k as int]),
                ));
                assert(drive_views(out@) =~= next.filter(pred).map_values(row_fn()));
            }
            k = k + 1;
        }
        assert(lv.subrange(0, all.len() as int) =~= lv);
        out
    }
}

} // verus!
