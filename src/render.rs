//! The columnar report: widths of columns, padding, and lines coloured by
//! utilization level.
use vstd::prelude::*;

use crate::record::{drive_views, DriveInfo, DriveView};
use crate::text::views;
use crate::usage::{level_of, level_spec, utilization, utilization_of, Level};

verus! {

#[verifier::external_type_specification]
pub struct ExColor(console::Color);

/// The longest length in `s`, or 0 where `s` is empty.
pub open spec fn max_len(s: Seq<Seq<char>>) -> nat
    decreases s.len(),
{
    if s.len() == 0 {
        0
    } else {
        let m = max_len(s.drop_last());
        if s.last().len() > m {
            s.last().len()
        } else {
            m
        }
    }
}

/// The width of a column: its longest value, or 30 for a column with no
/// values.
pub open spec fn column_width(s: Seq<Seq<char>>) -> nat {
    if s.len() == 0 {
        30
    } else {
        max_len(s)
    }
}

pub open spec fn ref_views(v: Seq<&String>) -> Seq<Seq<char>> {
    v.map_values(|s: &String| s@)
}

pub open spec fn mount_points(v: Seq<DriveView>) -> Seq<Seq<char>> {
    v.map_values(|d: DriveView| d.mount_point)
}

pub open spec fn filesystems(v: Seq<DriveView>) -> Seq<Seq<char>> {
    v.map_values(|d: DriveView| d.filesystem)
}

pub open spec fn sizes(v: Seq<DriveView>) -> Seq<Seq<char>> {
    v.map_values(|d: DriveView| d.size)
}

pub open spec fn avails(v: Seq<DriveView>) -> Seq<Seq<char>> {
    v.map_values(|d: DriveView| d.avail)
}

/// The width of the percent column.
pub const PERCENT_WIDTH: usize = 4;

/// The widths of the columns of a report whose width depends on its rows.
#[derive(Clone, Copy, Debug, PartialEq, Eq, Structural)]
pub struct Widths {
    pub mount_point: usize,
    pub filesystem: usize,
    pub size: usize,
    pub avail: usize,
}

/// The widths of the columns of a report on `v`.
pub open spec fn widths_of(v: Seq<DriveView>) -> Widths {
    Widths {
        mount_point: column_width(mount_points(v)) as usize,
        filesystem: column_width(filesystems(v)) as usize,
        size: column_width(sizes(v)) as usize,
        avail: column_width(avails(v)) as usize,
    }
}

/// The widths of a report on `v` are the computed column widths themselves,
/// each of which fits a `usize`.
pub open spec fn widths_exact(v: Seq<DriveView>) -> bool {
    &&& widths_of(v).mount_point as nat == column_width(mount_points(v))
    &&& widths_of(v).filesystem as nat == column_width(filesystems(v))
    &&& widths_of(v).size as nat == column_width(sizes(v))
    &&& widths_of(v).avail as nat == column_width(avails(v))
}

/// `s` with spaces added on the right up to `w` characters; `s` itself where
/// it is already as long.
pub open spec fn pad_right(s: Seq<char>, w: nat) -> Seq<char> {
    if s.len() >= w {
        s
    } else {
        s + Seq::new((w - s.len()) as nat, |i: int| ' ')
    }
}

/// The escape sequence that sets a foreground colour.
pub open spec fn fg_code(c: console::Color) -> Seq<char> {
    match c {
        console::Color::Black => "\x1b[30m"@,
        console::Color::Red => "\x1b[31m"@,
        console::Color::Green => "\x1b[32m"@,
        console::Color::Yellow => "\x1b[33m"@,
        console::Color::Blue => "\x1b[34m"@,
        console::Color::Magenta => "\x1b[35m"@,
        console::Color::Cyan => "\x1b[36m"@,
        console::Color::White => "\x1b[37m"@,
        console::Color::Color256(_) => Seq::empty(),
    }
}

/// `text` in bold, in colour `fg` where there is one; with `on` false, the
/// text alone.
pub open spec fn bold_styled(text: Seq<char>, fg: Option<console::Color>, on: bool) -> Seq<char> {
    if on {
        let code = match fg {
            Some(c) => fg_code(c),
            None => Seq::empty(),
        };
        code + "\x1b[1m"@ + text + "\x1b[0m"@
    } else {
        text
    }
}

/// The colour of a level.
pub open spec fn level_color(l: Level) -> console::Color {
    match l {
        Level::Healthy => console::Color::Green,
        Level::Caution => console::Color::Yellow,
        Level::Critical => console::Color::Red,
    }
}

/// The line of the report for `d`: mount point, percent used, available
/// of size, and filesystem, separated by tabs.
pub open spec fn line_spec(d: DriveView, w: Widths, on: bool) -> Seq<char> {
    let c = level_color(level_spec(utilization_of(d.percent_used)));
    bold_styled(pad_right(d.mount_point, w.mount_point as nat), Some(console::Color::Cyan), on)
        + "\tUsed: "@ + bold_styled(pad_right(d.percent_used, PERCENT_WIDTH as nat), Some(c), on)
        + "\t"@ + bold_styled(pad_right(d.avail, w.avail as nat), Some(c), on) + "/"@
        + bold_styled(pad_right(d.size, w.size as nat), None, on) + " available\t"@
        + bold_styled(pad_right(d.filesystem, w.filesystem as nat), None, on)
}

/// The lines of the report on `v`, one for each record, in order.
pub open spec fn report_text(v: Seq<DriveView>, on: bool) -> Seq<Seq<char>> {
    v.map_values(|d: DriveView| line_spec(d, widths_of(v), on))
}

/// Relies on console's `style`, `bold`, `force_styling` and its `Display`:
/// with styling forced on, the bold code, the text and the reset code; with
/// it forced off, the text alone.
#[verifier::external_body]
fn bold_text(text: &str, on: bool) -> (r: String)
    ensures
        r@ == bold_styled(text@, None, on),
{
    console::style(text).bold().force_styling(on).to_string()
}

/// Relies on console's `style`, `bold`, `fg`, `force_styling` and its
/// `Display`: with styling forced on, the colour code, the bold code, the
/// text and the reset code; with it forced off, the text alone.
#[verifier::external_body]
fn bold_colored(text: &str, color: console::Color, on: bool) -> (r: String)
    requires
        !(color is Color256),
    ensures
        r@ == bold_styled(text@, Some(color), on),
{
    console::style(text).bold().fg(color).force_styling(on).to_string()
}

/// The colour of a level: green, yellow or red.
pub fn color_of(level: Level) -> (r: console::Color)
    ensures
        r == level_color(level),
{
    match level {
        Level::Healthy => console::Color::Green,
        Level::Caution => console::Color::Yellow,
        Level::Critical => console::Color::Red,
    }
}

impl DriveInfo {
    /// The width of a column holding `string_list`: the largest number of
    /// characters of a value, or 30 where there is no value.
    pub fn find_longest_string_length(string_list: Vec<&String>) -> (r: usize)
        ensures
            r == column_width(ref_views(string_list@)),
    {
        if string_list.len() == 0 {
            return 30;
        }
        let ghost v = ref_views(string_list@);
        let mut best: usize = 0;
        let mut k: usize = 0;
        assert(v.subrange(0, 0) =~= Seq::<Seq<char>>::empty());
        while k < string_list.len()
            invariant
                v == ref_views(string_list@),
                k <= string_list.len(),
                best == max_len(v.subrange(0, k as int)),
            decreases string_list.len() - k,
        {
            let n = string_list[k].unicode_len();
            assert(v.subrange(0, k + 1).drop_last() =~= v.subrange(0, k as int));
            if n > best {
                best = n;
            }
            k = k + 1;
        }
        assert(v.subrange(0, string_list.len() as int) =~= v);
        best
    }

    /// `string` with spaces added on the right up to `total_length`
    /// characters.
    pub fn insert_spacing(total_length: usize, string: String) -> (r: String)
        ensures
            r@ == pad_right(string@, total_length as nat),
    {
        let mut padded = string.clone();
        let mut n = padded.unicode_len();
        let ghost len0 = n;
        proof {
            reveal_strlit(" ");
        }
        assert(padded@ =~= string@ + Seq::new((n - len0) as nat, |i: int| ' '));
        while n < total_length
            invariant
                len0 == string@.len(),
                len0 <= n,
                n <= total_length || n == len0,
                padded@ =~= string@ + Seq::new((n - len0) as nat, |i: int| ' '),
            decreases total_length - n,
        {
            let ghost before = padded@;
            padded.append(" ");
            n = n + 1;
            proof {
                reveal_strlit(" ");
            }
            assert(padded@ =~= before.push(' '));
            assert(padded@ =~= string@ + Seq::new((n - len0) as nat, |i: int| ' '));
        }
        padded
    }

    /// The widths of the columns of a report on `drives`.
    pub fn column_widths(drives: &Vec<DriveInfo>) -> (r: Widths)
        ensures
            r == widths_of(drive_views(drives@)),
            widths_exact(drive_views(drives@)),
    {
        let mut mount_points_col: Vec<&String> = Vec::new();
        let mut filesystems_col: Vec<&String> = Vec::new();
        let mut sizes_col: Vec<&String> = Vec::new();
        let mut avails_col: Vec<&String> = Vec::new();
        let mut k: usize = 0;
        while k < drives.len()
            invariant
                k <= drives.len(),
                mount_points_col.len() == k,
                filesystems_col.len() == k,
                sizes_col.len() == k,
                avails_col.len() == k,
                forall|j: int| 0 <= j < k ==> (#[trigger] mount_points_col@[j])@ == drives@[j].mount_point@,
                forall|j: int| 0 <= j < k ==> (#[trigger] filesystems_col@[j])@ == drives@[j].filesystem@,
                forall|j: int| 0 <= j < k ==> (#[trigger] sizes_col@[j])@ == drives@[j].size@,
                forall|j: int| 0 <= j < k ==> (#[trigger] avails_col@[j])@ == drives@[j].avail@,
            decreases drives.len() - k,
        {
            mount_points_col.push(&drives[k].mount_point);
            filesystems_col.push(&drives[k].filesystem);
            sizes_col.push(&drives[k].size);
            avails_col.push(&drives[k].avail);
            k = k + 1;
        }
        let ghost v = drive_views(drives@);
        assert(ref_views(mount_points_col@) =~= mount_points(v));
        assert(ref_views(filesystems_col@) =~= filesystems(v));
        assert(ref_views(sizes_col@) =~= sizes(v));
        assert(ref_views(avails_col@) =~= avails(v));
        Widths {
            mount_point: DriveInfo::find_longest_string_length(mount_points_col),
            filesystem: DriveInfo::find_longest_string_length(filesystems_col),
            size: DriveInfo::find_longest_string_length(sizes_col),
            avail: DriveInfo::find_longest_string_length(avails_col),
        }
    }

    /// The report line of this record under the widths `w`, styled where
    /// `colors` is set.
    pub fn render_line(&self, w: Widths, colors: bool) -> (r: String)
        ensures
            r@ == line_spec(self@, w, colors),
    {
        let color = color_of(level_of(utilization(self.percent_used.as_str())));
        let mnt = DriveInfo::insert_spacing(w.mount_point, self.mount_point.clone());
        let pct = DriveInfo::insert_spacing(PERCENT_WIDTH, self.percent_used.clone());
        let avail = DriveInfo::insert_spacing(w.avail, self.avail.clone());
        let size = DriveInfo::insert_spacing(w.size, self.size.clone());
        let fs = DriveInfo::insert_spacing(w.filesystem, self.filesystem.clone());
        let mut line = bold_colored(mnt.as_str(), console::Color::Cyan, colors);
        line.append("\tUsed: ");
        line.append(bold_colored(pct.as_str(), color, colors).as_str());
        line.append("\t");
        line.append(bold_colored(avail.as_str(), color, colors).as_str());
        line.append("/");
        line.append(bold_text(size.as_str(), colors).as_str());
        line.append(" available\t");
        line.append(bold_text(fs.as_str(), colors).as_str());
        line
    }

    /// The lines of the columnar report on `drives`: one for each record,
    /// in order, with columns padded to the widths of `column_widths` and
    /// styled where `colors` is set. No records give no lines.
    pub fn pretty_print(drives: &Vec<DriveInfo>, colors: bool) -> (r: Vec<String>)
        ensures
            views(r@) == report_text(drive_views(drives@), colors),
            widths_exact(drive_views(drives@)),
            forall|i: int|
                0 <= i < drives.len() ==> {
                    let w = widths_of(drive_views(drives@));
                    &&& (#[trigger] drives@[i]).mount_point@.len() <= w.mount_point
                    &&& drives@[i].filesystem@.len() <= w.filesystem
                    &&& drives@[i].size@.len() <= w.size
                    &&& drives@[i].avail@.len() <= w.avail
                },
    {
        let w = DriveInfo::column_widths(drives);
        let ghost v = drive_views(drives@);
        let mut out: Vec<String> = Vec::new();
        let mut k: usize = 0;
        while k < drives.len()
            invariant
                v == drive_views(drives@),
                w == widths_of(v),
                widths_exact(v),
                k <= drives.len(),
                out.len() == k,
                forall|j: int| 0 <= j < k ==> (#[trigger] out@[j])@ == line_spec(v[j], w, colors),
            decreases drives.len() - k,
        {
            let line = drives[k].render_line(w, colors);
            out.push(line);
            k = k + 1;
        }
        assert(views(out@) =~= report_text(v, colors));
        proof {
            lemma_widths_cover(v);
            assert forall|i: int| 0 <= i < drives.len() implies {
                &&& (#[trigger] drives@[i]).mount_point@.len() <= w.mount_point
                &&& drives@[i].filesystem@.len() <= w.filesystem
                &&& drives@[i].size@.len() <= w.size
                &&& drives@[i].avail@.len() <= w.avail
            } by {
                assert(drives@[i]@ == v[i]);
            }
        }
        out
    }
}

proof fn lemma_max_len_bound(s: Seq<Seq<char>>, i: int)
    requires
        0 <= i < s.len(),
    ensures
        s[i].len() <= max_len(s),
    decreases s.len(),
{
    if i < s.len() - 1 {
        lemma_max_len_bound(s.drop_last(), i);
    }
}

/// Padding never truncates: the padded text starts with the text, and is
/// as long as the larger of the text and the width.
pub proof fn lemma_pad_keeps_text(s: Seq<char>, w: nat)
    ensures
        pad_right(s, w).subrange(0, s.len() as int) == s,
        pad_right(s, w).len() == if s.len() >= w {
            s.len()
        } else {
            w
        },
{
    assert(pad_right(s, w).subrange(0, s.len() as int) =~= s);
}

/// Each computed column width is at least the length of every value in its
/// column, for the mount point, filesystem, size and available columns.
pub proof fn lemma_widths_cover(v: Seq<DriveView>)
    ensures
        forall|i: int|
            0 <= i < v.len() ==> {
                &&& (#[trigger] v[i]).mount_point.len() <= column_width(mount_points(v))
                &&& v[i].filesystem.len() <= column_width(filesystems(v))
                &&& v[i].size.len() <= column_width(sizes(v))
                &&& v[i].avail.len() <= column_width(avails(v))
            },
{
    assert forall|i: int| 0 <= i < v.len() implies {
        &&& (#[trigger] v[i]).mount_point.len() <= column_width(mount_points(v))
        &&& v[i].filesystem.len() <= column_width(filesystems(v))
        &&& v[i].size.len() <= column_width(sizes(v))
        &&& v[i].avail.len() <= column_width(avails(v))
    } by {
        lemma_max_len_bound(mount_points(v), i);
        lemma_max_len_bound(filesystems(v), i);
        lemma_max_len_bound(sizes(v), i);
        lemma_max_len_bound(avails(v), i);
    }
}

/// Rendering is repeatable: two renderings of one collection under one
/// colour setting are the same lines, character for character.
pub proof fn lemma_render_repeatable(
    v: Seq<DriveView>,
    on: bool,
    first: Seq<Seq<char>>,
    second: Seq<Seq<char>>,
)
    requires
        first == report_text(v, on),
        second == report_text(v, on),
    ensures
        first == second,
        first.len() == v.len(),
{
}

} // verus!
