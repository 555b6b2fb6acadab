//! The aggregation driver's report.
//!
//! The driver runs the steps strictly in sequence; each step settles
//! into an outcome of its own, and no step's failure touches any other.
//! A populated result becomes a section; an empty one is suppressed; a
//! failure becomes a diagnostic, and the report is still produced from
//! whatever was gathered.

use vstd::prelude::*;

use vstd::string::StringExecFns;

use crate::errors::DnsErrorKind;
use crate::errors::FetchFailure;
use crate::errors::StatusClass;
use crate::errors::spec_status_class;
use crate::errors::classify_status;
use crate::normalize::normalize;
use crate::normalize::strictly_sorted;

verus! {

/// What one historical source query settled into: records, a clean
/// "nothing found", or a classified failure.
pub enum SourceOutcome {
    Records(Vec<String>),
    Empty,
    Failed(FetchFailure),
}

/// Settle one historical source query from its HTTP status and the raw
/// records its body yielded. A 2xx answer yields the normalized records;
/// an authentication refusal (401 or 403) degrades to an empty set, so
/// an unauthenticated run goes on without aborting anything; any other
/// status is a terminal failure carrying the code.
pub fn settle_osint_query(status: u16, raw: Vec<String>) -> (r: SourceOutcome)
    ensures
        spec_status_class(status) == StatusClass::Success ==> (r matches SourceOutcome::Records(v)
            && strictly_sorted(v.deep_view()) && v.deep_view().to_set()
            == raw.deep_view().to_set()),
        spec_status_class(status) == StatusClass::AuthRefused ==> r is Empty,
        spec_status_class(status) == StatusClass::Failure ==> (r matches SourceOutcome::Failed(f)
            && f == FetchFailure::BadStatus(status)),
{
    match classify_status(status) {
        StatusClass::Success => SourceOutcome::Records(normalize(raw)),
        StatusClass::AuthRefused => SourceOutcome::Empty,
        StatusClass::Failure => SourceOutcome::Failed(FetchFailure::BadStatus(status)),
    }
}

/// One section of the report: a category label and its lines.
pub struct Section {
    pub label: String,
    pub lines: Vec<String>,
}

/// Which layer a failed step failed in.
pub enum StepFailure {
    Dns(DnsErrorKind),
    Fetch(FetchFailure),
}

/// One per-step diagnostic: the step's label and its failure.
pub struct Diagnostic {
    pub label: String,
    pub failure: StepFailure,
}

/// The report under construction: the sections, in the order the steps
/// ran, and the diagnostics of the steps that failed.
pub struct Report {
    /// Whether an empty, non-erroring category still gets an (empty)
    /// section. Suppressing such sections is the default; showing them
    /// is a policy choice, not a hidden assumption.
    pub show_empty: bool,
    pub sections: Vec<Section>,
    pub diagnostics: Vec<Diagnostic>,
}

impl Report {
    /// An empty report under the default policy: empty categories are
    /// suppressed.
    pub fn new() -> (r: Self)
        ensures
            !r.show_empty,
            r.sections@.len() == 0,
            r.diagnostics@.len() == 0,
    {
        Report { show_empty: false, sections: Vec::new(), diagnostics: Vec::new() }
    }

    /// An empty report that will show empty, non-erroring categories as
    /// empty sections.
    pub fn with_empty_sections() -> (r: Self)
        ensures
            r.show_empty,
            r.sections@.len() == 0,
            r.diagnostics@.len() == 0,
    {
        Report { show_empty: true, sections: Vec::new(), diagnostics: Vec::new() }
    }

    /// Record one source step: a populated result becomes a section; an
    /// empty one (or one degraded to empty) is suppressed, or shown
    /// empty under that policy; a failure becomes a diagnostic. Nothing
    /// already recorded is touched.
    pub fn add_outcome(&mut self, label: String, outcome: SourceOutcome)
        ensures
            final(self).show_empty == old(self).show_empty,
            match outcome {
                SourceOutcome::Records(v) => {
                    if v@.len() > 0 {
                        final(self).sections@ == old(self).sections@.push(
                            (Section { label, lines: v }),
                        ) && final(self).diagnostics@ == old(self).diagnostics@
                    } else if old(self).show_empty {
                        final(self).sections@ == old(self).sections@.push(
                            (Section { label, lines: v }),
                        ) && final(self).diagnostics@ == old(self).diagnostics@
                    } else {
                        *final(self) == *old(self)
                    }
                },
                SourceOutcome::Empty => {
                    if old(self).show_empty {
                        &&& final(self).sections@.len() == old(self).sections@.len() + 1
                        &&& final(self).sections@.last().label == label
                        &&& final(self).sections@.last().lines@.len() == 0
                        &&& final(self).sections@.subrange(0, old(self).sections@.len() as int)
                            == old(self).sections@
                        &&& final(self).diagnostics@ == old(self).diagnostics@
                    } else {
                        *final(self) == *old(self)
                    }
                },
                SourceOutcome::Failed(f) => {
                    final(self).sections@ == old(self).sections@ && final(self).diagnostics@ == old(
                        self,
                    ).diagnostics@.push(
                        (Diagnostic { label, failure: StepFailure::Fetch(f) }),
                    )
                },
            },
    {
        match outcome {
            SourceOutcome::Records(v) => {
                if v.len() > 0 || self.show_empty {
                    self.sections.push(Section { label, lines: v });
                }
            },
            SourceOutcome::Empty => {
                if self.show_empty {
                    let ghost pre = self.sections@;
                    self.sections.push(Section { label, lines: Vec::new() });
                    proof {
                        assert(self.sections@.subrange(0, pre.len() as int) =~= pre);
                    }
                }
            },
            SourceOutcome::Failed(f) => {
                self.diagnostics.push(Diagnostic { label, failure: StepFailure::Fetch(f) });
            },
        }
    }

    /// Record one live DNS step: the answer lines become a section; an
    /// empty answer is suppressed, or shown empty under that policy; a
    /// resolution error becomes a diagnostic. Nothing already recorded
    /// is touched.
    pub fn add_dns_outcome(&mut self, label: String, outcome: Result<Vec<String>, DnsErrorKind>)
        ensures
            final(self).show_empty == old(self).show_empty,
            match outcome {
                Result::Ok(v) => {
                    if v@.len() > 0 || old(self).show_empty {
                        final(self).sections@ == old(self).sections@.push(
                            (Section { label, lines: v }),
                        ) && final(self).diagnostics@ == old(self).diagnostics@
                    } else {
                        *final(self) == *old(self)
                    }
                },
                Result::Err(e) => {
                    final(self).sections@ == old(self).sections@ && final(self).diagnostics@ == old(
                        self,
                    ).diagnostics@.push((Diagnostic { label, failure: StepFailure::Dns(e) }))
                },
            },
    {
        match outcome {
            Result::Ok(v) => {
                if v.len() > 0 || self.show_empty {
                    self.sections.push(Section { label, lines: v });
                }
            },
            Result::Err(e) => {
                self.diagnostics.push(Diagnostic { label, failure: StepFailure::Dns(e) });
            },
        }
    }
}

/// The file a saved report goes to: the chosen base name with the text
/// extension.
pub fn report_filename(base: &str) -> (r: String)
    ensures
        r@ == base@ + ".txt"@,
{
    let mut r = String::from_str(base);
    r.append(".txt");
    r
}

/// The categories the driver works through, one step each.
#[derive(Clone, Copy, Debug, PartialEq, Eq, Structural)]
pub enum Category {
    Addresses,
    TxtRecords,
    CnameChain,
    MxRecords,
    NsRecords,
    HistoricalSubdomains,
    WhoisSummary,
    UrlList,
    HttpScans,
    CertSpotterNames,
    CrtShNames,
}

/// The display label of one category.
pub open spec fn spec_category_label(c: Category) -> Seq<char> {
    match c {
        Category::Addresses => "A/AAAA Records"@,
        Category::TxtRecords => "TXT Records"@,
        Category::CnameChain => "CNAME Chain"@,
        Category::MxRecords => "MX Records"@,
        Category::NsRecords => "Nameservers Record"@,
        Category::HistoricalSubdomains => "Historical Subdomains (AlienVault)"@,
        Category::WhoisSummary => "WHOIS Information (AlienVault)"@,
        Category::UrlList => "URL List (AlienVault)"@,
        Category::HttpScans => "HTTP Scans (AlienVault)"@,
        Category::CertSpotterNames => "Historical TXT Records (CertSpotter)"@,
        Category::CrtShNames => "Subdomains from crt.sh (Active & Expired Certificates)"@,
    }
}

impl Category {
    /// The label of this category's report section.
    pub fn label(&self) -> (r: &'static str)
        ensures
            r@ == spec_category_label(*self),
    {
        match self {
            Category::Addresses => "A/AAAA Records",
            Category::TxtRecords => "TXT Records",
            Category::CnameChain => "CNAME Chain",
            Category::MxRecords => "MX Records",
            Category::NsRecords => "Nameservers Record",
            Category::HistoricalSubdomains => "Historical Subdomains (AlienVault)",
            Category::WhoisSummary => "WHOIS Information (AlienVault)",
            Category::UrlList => "URL List (AlienVault)",
            Category::HttpScans => "HTTP Scans (AlienVault)",
            Category::CertSpotterNames => "Historical TXT Records (CertSpotter)",
            Category::CrtShNames => "Subdomains from crt.sh (Active & Expired Certificates)",
        }
    }
}

/// The order the driver works the categories in, strictly sequential:
/// the live lookups first, then the historical sources, the retried
/// certificate log last.
pub fn category_order() -> (r: Vec<Category>)
    ensures
        r@ =~= seq![
            Category::Addresses,
            Category::TxtRecords,
            Category::CnameChain,
            Category::MxRecords,
            Category::NsRecords,
            Category::HistoricalSubdomains,
            Category::WhoisSummary,
            Category::UrlList,
            Category::HttpScans,
            Category::CertSpotterNames,
            Category::CrtShNames,
        ],
{
    let mut r: Vec<Category> = Vec::new();
    r.push(Category::Addresses);
    r.push(Category::TxtRecords);
    r.push(Category::CnameChain);
    r.push(Category::MxRecords);
    r.push(Category::NsRecords);
    r.push(Category::HistoricalSubdomains);
    r.push(Category::WhoisSummary);
    r.push(Category::UrlList);
    r.push(Category::HttpScans);
    r.push(Category::CertSpotterNames);
    r.push(Category::CrtShNames);
    r
}

} // verus!
