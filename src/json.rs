//! The report as a JSON document: an array of objects, one for each record,
//! with the six fields in the record's order.
use vstd::prelude::*;

use crate::record::{drive_views, DriveInfo, DriveView};

verus! {

#[verifier::external_type_specification]
#[verifier::external_body]
pub struct ExJsonError(serde_json::Error);

/// What a report could not do.
#[derive(Clone, Copy, Debug, PartialEq, Eq, Structural)]
pub enum ReportError {
    /// The disk-usage tool could not be run, or its output was no text.
    ExternalTool,
    /// The records could not be encoded as JSON.
    Serialization,
}

/// A lowercase hexadecimal digit, for `n` below 16.
pub open spec fn hex_digit(n: int) -> char {
    "0123456789abcdef"@[n]
}

/// How a JSON string literal writes one character: `"` and `\` after a
/// backslash; backspace, tab, line feed, form feed and carriage return as
/// `\b \t \n \f \r`; other characters below U+0020 as `\u00` and two
/// hexadecimal digits; every other character as it is.
pub open spec fn escape_char(c: char) -> Seq<char> {
    if c == '"' {
        seq!['\\', '"']
    } else if c == '\\' {
        seq!['\\', '\\']
    } else if c == '\u{8}' {
        seq!['\\', 'b']
    } else if c == '\t' {
        seq!['\\', 't']
    } else if c == '\n' {
        seq!['\\', 'n']
    } else if c == '\u{c}' {
        seq!['\\', 'f']
    } else if c == '\r' {
        seq!['\\', 'r']
    } else if (c as int) < 0x20 {
        seq!['\\', 'u', '0', '0', hex_digit((c as int) / 16), hex_digit((c as int) % 16)]
    } else {
        seq![c]
    }
}

/// The characters of `s`, each written as `escape_char` says.
pub open spec fn escaped(s: Seq<char>) -> Seq<char>
    decreases s.len(),
{
    if s.len() == 0 {
        Seq::empty()
    } else {
        escaped(s.drop_last()) + escape_char(s.last())
    }
}

/// The JSON string literal that encodes `s`: a quote, the escaped
/// characters, a quote.
pub open spec fn json_string(s: Seq<char>) -> Seq<char> {
    seq!['"'] + escaped(s) + seq!['"']
}

/// Relies on `serde_json::to_string` on a `str`: it writes into a buffer that
/// cannot fail, a quote, each character escaped as `escape_char` says, and a
/// quote.
#[verifier::external_body]
fn quote_json(s: &str) -> (r: Result<String, serde_json::Error>)
    ensures
        r is Ok,
        r->Ok_0@ == json_string(s@),
{
    serde_json::to_string(s)
}

/// Every field of `d` as a JSON string literal.
pub open spec fn quoted_record(d: DriveView) -> DriveView {
    DriveView {
        filesystem: json_string(d.filesystem),
        mount_point: json_string(d.mount_point),
        size: json_string(d.size),
        used: json_string(d.used),
        avail: json_string(d.avail),
        percent_used: json_string(d.percent_used),
    }
}

/// The JSON object of a record whose fields are already encoded.
pub open spec fn framed_record(q: DriveView) -> Seq<char> {
    "{\"filesystem\":"@ + q.filesystem + ",\"mount_point\":"@ + q.mount_point + ",\"size\":"@
        + q.size + ",\"used\":"@ + q.used + ",\"avail\":"@ + q.avail + ",\"percent_used\":"@
        + q.percent_used + "}"@
}

/// The objects of `qs`, separated by commas.
pub open spec fn joined_records(qs: Seq<DriveView>) -> Seq<char>
    decreases qs.len(),
{
    if qs.len() == 0 {
        Seq::empty()
    } else if qs.len() == 1 {
        framed_record(qs[0])
    } else {
        joined_records(qs.drop_last()) + ","@ + framed_record(qs.last())
    }
}

/// The JSON array of records whose fields are already encoded.
pub open spec fn framed_list(qs: Seq<DriveView>) -> Seq<char> {
    "["@ + joined_records(qs) + "]"@
}

pub open spec fn quoted_fn() -> spec_fn(DriveView) -> DriveView {
    |d: DriveView| quoted_record(d)
}

/// The JSON document of a report on `v`.
pub open spec fn json_document(v: Seq<DriveView>) -> Seq<char> {
    framed_list(v.map_values(quoted_fn()))
}

impl DriveInfo {
    /// The JSON array of records whose fields hold JSON string literals
    /// already: each record an object with its six fields in order.
    pub fn frame_json(quoted: &Vec<DriveInfo>) -> (r: String)
        ensures
            r@ == framed_list(drive_views(quoted@)),
    {
        let ghost qv = drive_views(quoted@);
        let mut out = String::from_str("[");
        let mut k: usize = 0;
        assert(qv.subrange(0, 0) =~= Seq::<DriveView>::empty());
        assert(out@ =~= "["@ + joined_records(qv.subrange(0, 0)));
        while k < quoted.len()
            invariant
                qv == drive_views(quoted@),
                k <= quoted.len(),
                out@ == "["@ + joined_records(qv.subrange(0, k as int)),
            decreases quoted.len() - k,
        {
            let ghost before = out@;
            let q = &quoted[k];
            assert(qv.subrange(0, k + 1).drop_last() =~= qv.subrange(0, k as int));
            if k > 0 {
                out.append(",");
            }
            out.append("{\"filesystem\":");
            out.append(q.filesystem.as_str());
            out.append(",\"mount_point\":");
            out.append(q.mount_point.as_str());
            out.append(",\"size\":");
            out.append(q.size.as_str());
            out.append(",\"used\":");
            out.append(q.used.as_str());
            out.append(",\"avail\":");
            out.append(q.avail.as_str());
            out.append(",\"percent_used\":");
            out.append(q.percent_used.as_str());
            out.append("}");
            proof {
                let fr = framed_record(qv[k as int]);
                if k > 0 {
                    assert(out@ =~= before + ","@ + fr);
                } else {
                    assert(qv.subrange(0, 1)[0] == qv[0]);
                    assert(out@ =~= before + fr);
                }
            }
            k = k + 1;
        }
        out.append("]");
        assert(qv.subrange(0, quoted.len() as int) =~= qv);
        out
    }

    fn quote_fields(&self) -> (r: Result<DriveInfo, ReportError>)
        ensures
            r matches Ok(q) && q@ == quoted_record(self@),
    {
        let filesystem = match quote_json(self.filesystem.as_str()) {
            Ok(q) => q,
            Err(_) => return Err(ReportError::Serialization),
        };
        let mount_point = match quote_json(self.mount_point.as_str()) {
            Ok(q) => q,
            Err(_) => return Err(ReportError::Serialization),
        };
        let size = match quote_json(self.size.as_str()) {
            Ok(q) => q,
            Err(_) => return Err(ReportError::Serialization),
        };
        let used = match quote_json(self.used.as_str()) {
            Ok(q) => q,
            Err(_) => return Err(ReportError::Serialization),
        };
        let avail = match quote_json(self.avail.as_str()) {
            Ok(q) => q,
            Err(_) => return Err(ReportError::Serialization),
        };
        let percent_used = match quote_json(self.percent_used.as_str()) {
            Ok(q) => q,
            Err(_) => return Err(ReportError::Serialization),
        };
        Ok(DriveInfo { filesystem, mount_point, size, used, avail, percent_used })
    }

    /// The JSON document of a report on `drives`: an array with one object
    /// for each record, in order, each with its six fields in order. Every
    /// collection of records can be encoded.
    pub fn json(drives: &Vec<DriveInfo>) -> (r: Result<String, ReportError>)
        ensures
            r matches Ok(s) && s@ == json_document(drive_views(drives@)),
    {
        let ghost v = drive_views(drives@);
        let mut quoted: Vec<DriveInfo> = Vec::new();
        let mut k: usize = 0;
        while k < drives.len()
            invariant
                v == drive_views(drives@),
                k <= drives.len(),
                quoted.len() == k,
                forall|j: int| 0 <= j < k ==> (#[trigger] quoted@[j])@ == quoted_record(v[j]),
            decreases drives.len() - k,
        {
            let q = drives[k].quote_fields()?;
            quoted.push(q);
            k = k + 1;
        }
        assert(drive_views(quoted@) =~= v.map_values(quoted_fn()));
        Ok(DriveInfo::frame_json(&quoted))
    }
}

} // verus!
