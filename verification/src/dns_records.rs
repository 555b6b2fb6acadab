//! Shaping of live DNS answers.
//!
//! The resolver hands the library plain answer lists; here they are
//! turned into the report's values: MX answers become "preference ->
//! exchange" lines, and the lookups that report a single record surface
//! their first answer. An empty answer list is a not-found, reported as
//! such.

use vstd::prelude::*;

use vstd::string::StringExecFns;

use crate::errors::DnsErrorKind;
use crate::text::dec_chars;
use crate::text::u64_to_string;

verus! {

/// One MX answer: the preference value and the exchange host.
pub struct MxRecord {
    pub preference: u16,
    pub exchange: String,
}

/// The display line of one MX answer.
pub open spec fn spec_mx_line(r: MxRecord) -> Seq<char> {
    dec_chars(r.preference as nat) + " -> "@ + r.exchange@
}

/// Render one MX answer as "preference -> exchange".
pub fn render_mx_record(r: &MxRecord) -> (out: String)
    ensures
        out@ == spec_mx_line(*r),
{
    let mut s = u64_to_string(r.preference as u64);
    s.append(" -> ");
    s.append(r.exchange.as_str());
    s
}

/// Render every MX answer, in answer order; no answers at all is a
/// not-found, and nothing else is.
pub fn render_mx_records(records: &Vec<MxRecord>) -> (out: Result<Vec<String>, DnsErrorKind>)
    ensures
        out is Err <==> records@.len() == 0,
        out matches Err(e) ==> e == DnsErrorKind::NotFound,
        out matches Ok(lines) ==> lines.deep_view().len() == records@.len() && forall|i: int|
            0 <= i < records@.len() ==> lines.deep_view()[i] == spec_mx_line(
                #[trigger] records@[i],
            ),
{
    if records.len() == 0 {
        return Result::Err(DnsErrorKind::NotFound);
    }
    let mut lines: Vec<String> = Vec::new();
    let mut i: usize = 0;
    while i < records.len()
        invariant
            i <= records.len(),
            lines.deep_view().len() == i,
            forall|j: int|
                0 <= j < i ==> lines.deep_view()[j] == spec_mx_line(#[trigger] records@[j]),
        decreases records.len() - i,
    {
        let line = render_mx_record(&records[i]);
        lines.push(line);
        i = i + 1;
    }
    Result::Ok(lines)
}

/// The first answer of a lookup that reports a single record; no answer
/// at all is a not-found, and nothing else is.
pub fn first_record(records: Vec<String>) -> (out: Result<String, DnsErrorKind>)
    ensures
        out is Err <==> records@.len() == 0,
        out matches Err(e) ==> e == DnsErrorKind::NotFound,
        out matches Ok(s) ==> s@ == records@[0]@,
{
    let mut records = records;
    if records.len() == 0 {
        Result::Err(DnsErrorKind::NotFound)
    } else {
        Result::Ok(records.remove(0))
    }
}

} // verus!
