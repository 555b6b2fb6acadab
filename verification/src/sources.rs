//! The request contract shared by the historical data sources.
//!
//! Every source query is described by a URL and an optional credential.
//! A credential is attached only when one was supplied, is non-empty and
//! is not the documented placeholder; a missing credential means the
//! query simply runs unauthenticated. This module also renders the
//! HTTP-scan metadata ("field: value" lines with long string values
//! truncated) and the WHOIS summary (one labelled line per non-empty
//! field).

use vstd::prelude::*;

use vstd::string::StrSliceExecFns;
use vstd::string::StringExecFns;

use crate::text::is_substring_of;
use crate::text::join_with;
use crate::text::join_all;
use crate::text::str_contains;

verus! {

/// The sentinel some configurations write in place of a real key.
pub fn credential_placeholder() -> (r: &'static str)
    ensures
        r@ == "No AV key"@,
{
    "No AV key"
}

/// A usable credential: supplied, non-empty, and not the placeholder.
pub open spec fn spec_usable_credential(key: Option<String>) -> bool {
    match key {
        Option::Some(k) => k@.len() > 0 && !is_substring_of("No AV key"@, k@),
        Option::None => false,
    }
}

/// The credential to attach, if any. An empty or placeholder credential
/// is never attached: the query runs unauthenticated instead.
pub fn usable_credential(key: &Option<String>) -> (r: Option<String>)
    ensures
        spec_usable_credential(*key) ==> (r matches Option::Some(u) && (*key) matches Option::Some(
            k,
        ) && u@ == k@),
        !spec_usable_credential(*key) ==> r is None,
{
    match key {
        Option::Some(k) => {
            if k.as_str().unicode_len() == 0 {
                Option::None
            } else if str_contains(k.as_str(), credential_placeholder()) {
                Option::None
            } else {
                Option::Some(k.clone())
            }
        },
        Option::None => Option::None,
    }
}

/// The header a usable OTX credential travels in.
pub fn otx_api_key_header() -> (r: &'static str)
    ensures
        r@ == "X-OTX-API-KEY"@,
{
    "X-OTX-API-KEY"
}

/// One planned source request: where to go, and the credential to
/// attach, already vetted.
pub struct RequestPlan {
    pub url: String,
    pub api_key: Option<String>,
}

/// The OTX domain-indicator endpoint for one sibling operation.
pub fn otx_indicator_url(domain: &str, endpoint: &str) -> (r: String)
    ensures
        r@ == "https://otx.alienvault.com/api/v1/indicators/domain/"@ + domain@ + "/"@ + endpoint@,
{
    let mut u = String::from_str("https://otx.alienvault.com/api/v1/indicators/domain/");
    u.append(domain);
    u.append("/");
    u.append(endpoint);
    u
}

/// Plan one OTX query: the sibling endpoint's URL, and the credential
/// only if it is usable.
pub fn plan_otx_request(domain: &str, endpoint: &str, key: &Option<String>) -> (r: RequestPlan)
    ensures
        r.url@ == "https://otx.alienvault.com/api/v1/indicators/domain/"@ + domain@ + "/"@
            + endpoint@,
        spec_usable_credential(*key) ==> (r.api_key matches Option::Some(u) && (
        *key) matches Option::Some(k) && u@ == k@),
        !spec_usable_credential(*key) ==> r.api_key is None,
{
    RequestPlan { url: otx_indicator_url(domain, endpoint), api_key: usable_credential(key) }
}

/// The crt.sh query for all certificates covering the domain.
pub fn crtsh_url(domain: &str) -> (r: String)
    ensures
        r@ == "https://crt.sh/?q=%."@ + domain@ + "&output=json"@,
{
    let mut u = String::from_str("https://crt.sh/?q=%.");
    u.append(domain);
    u.append("&output=json");
    u
}

/// The CertSpotter issuances query for the domain and its subdomains.
pub fn certspotter_url(domain: &str) -> (r: String)
    ensures
        r@ == "https://api.certspotter.com/v1/issuances?domain="@ + domain@
            + "&include_subdomains=true&expand=dns_names"@,
{
    let mut u = String::from_str("https://api.certspotter.com/v1/issuances?domain=");
    u.append(domain);
    u.append("&include_subdomains=true&expand=dns_names");
    u
}

/// A long string value is cut to its first hundred characters and marked
/// with an ellipsis; anything else is kept whole.
pub open spec fn spec_truncated(s: Seq<char>) -> Seq<char> {
    if s.len() > 100 {
        s.take(100) + "..."@
    } else {
        s
    }
}

/// Executable truncation, agreeing with [`spec_truncated`].
pub fn truncate_scan_value(s: &str) -> (r: String)
    ensures
        r@ == spec_truncated(s@),
{
    let len = s.unicode_len();
    if len > 100 {
        let head = s.substring_char(0, 100);
        let mut r = String::from_str(head);
        r.append("...");
        proof {
            assert(s@.subrange(0, 100) =~= s@.take(100));
        }
        r
    } else {
        String::from_str(s)
    }
}

/// One value of an HTTP-scan record, as the library models it: a string
/// field, which is subject to truncation, or any other JSON value
/// already rendered to text.
pub enum ScanValue {
    Text(String),
    Rendered(String),
}

/// One HTTP-scan record: the field's name and its value.
pub struct ScanField {
    pub name: String,
    pub value: ScanValue,
}

/// The display line of one scan field.
pub open spec fn spec_scan_line(f: ScanField) -> Seq<char> {
    match f.value {
        ScanValue::Text(s) => f.name@ + ": "@ + spec_truncated(s@),
        ScanValue::Rendered(s) => f.name@ + ": "@ + s@,
    }
}

/// Render one scan field as "name: value", truncating a long string
/// value.
pub fn render_scan_field(f: &ScanField) -> (r: String)
    ensures
        r@ == spec_scan_line(*f),
{
    let mut r = f.name.clone();
    r.append(": ");
    match &f.value {
        ScanValue::Text(s) => {
            let t = truncate_scan_value(s.as_str());
            r.append(t.as_str());
        },
        ScanValue::Rendered(s) => {
            r.append(s.as_str());
        },
    }
    r
}

/// Render every scan record, in order, one line each.
pub fn render_http_scans(fields: &Vec<ScanField>) -> (out: Vec<String>)
    ensures
        out.deep_view().len() == fields@.len(),
        forall|i: int|
            0 <= i < fields@.len() ==> out.deep_view()[i] == spec_scan_line(#[trigger] fields@[i]),
{
    let mut out: Vec<String> = Vec::new();
    let mut i: usize = 0;
    while i < fields.len()
        invariant
            i <= fields.len(),
            out.deep_view().len() == i,
            forall|j: int|
                0 <= j < i ==> out.deep_view()[j] == spec_scan_line(#[trigger] fields@[j]),
        decreases fields.len() - i,
    {
        let line = render_scan_field(&fields[i]);
        out.push(line);
        i = i + 1;
    }
    out
}

/// The WHOIS summary, as plain values: registrar, creation date,
/// expiration date and name servers, any of which the source may have
/// left empty.
pub struct WhoisSummary {
    pub registrar: String,
    pub creation_date: String,
    pub expiration_date: String,
    pub name_servers: Vec<String>,
}

/// The summary's display lines: one labelled line per field, emitted
/// only if the field is non-empty, name servers joined with a comma.
pub open spec fn spec_whois_lines(w: WhoisSummary) -> Seq<Seq<char>> {
    let a: Seq<Seq<char>> = if w.registrar@.len() > 0 {
        seq!["Registrar: "@ + w.registrar@]
    } else {
        Seq::empty()
    };
    let b: Seq<Seq<char>> = if w.creation_date@.len() > 0 {
        seq!["Created: "@ + w.creation_date@]
    } else {
        Seq::empty()
    };
    let c: Seq<Seq<char>> = if w.expiration_date@.len() > 0 {
        seq!["Expires: "@ + w.expiration_date@]
    } else {
        Seq::empty()
    };
    let d: Seq<Seq<char>> = if w.name_servers@.len() > 0 {
        seq!["Name Servers: "@ + join_with(w.name_servers.deep_view(), ", "@)]
    } else {
        Seq::empty()
    };
    a + b + c + d
}

/// Render the WHOIS summary.
pub fn whois_lines(w: &WhoisSummary) -> (out: Vec<String>)
    ensures
        out.deep_view() == spec_whois_lines(*w),
{
    let mut out: Vec<String> = Vec::new();
    if w.registrar.as_str().unicode_len() > 0 {
        let mut line = String::from_str("Registrar: ");
        line.append(w.registrar.as_str());
        out.push(line);
    }
    if w.creation_date.as_str().unicode_len() > 0 {
        let mut line = String::from_str("Created: ");
        line.append(w.creation_date.as_str());
        out.push(line);
    }
    if w.expiration_date.as_str().unicode_len() > 0 {
        let mut line = String::from_str("Expires: ");
        line.append(w.expiration_date.as_str());
        out.push(line);
    }
    if w.name_servers.len() > 0 {
        let mut line = String::from_str("Name Servers: ");
        let joined = join_all(&w.name_servers, ", ");
        line.append(joined.as_str());
        out.push(line);
    }
    proof {
        assert(out.deep_view() =~= spec_whois_lines(*w));
    }
    out
}

} // verus!
