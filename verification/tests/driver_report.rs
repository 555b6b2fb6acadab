use dns_recon::errors::DnsErrorKind;
use dns_recon::errors::FetchFailure;
use dns_recon::report::category_order;
use dns_recon::report::report_filename;
use dns_recon::report::settle_osint_query;
use dns_recon::report::Category;
use dns_recon::report::Report;
use dns_recon::report::SourceOutcome;
use dns_recon::report::StepFailure;

fn strings(items: &[&str]) -> Vec<String> {
    items.iter().map(|s| String::from(*s)).collect()
}

#[test]
fn successful_query_yields_normalized_records() {
    let raw = strings(&["b.example.com", "a.example.com", "b.example.com"]);
    match settle_osint_query(200, raw) {
        SourceOutcome::Records(v) => assert_eq!(v, strings(&["a.example.com", "b.example.com"])),
        _ => panic!("2xx did not yield records"),
    }
}

#[test]
fn auth_refusal_degrades_to_empty() {
    assert!(matches!(settle_osint_query(401, Vec::new()), SourceOutcome::Empty));
    assert!(matches!(settle_osint_query(403, Vec::new()), SourceOutcome::Empty));
}

#[test]
fn other_status_is_terminal_with_code() {
    match settle_osint_query(404, Vec::new()) {
        SourceOutcome::Failed(FetchFailure::BadStatus(code)) => assert_eq!(code, 404),
        _ => panic!("non-2xx did not fail with its status"),
    }
}

#[test]
fn populated_outcome_becomes_a_section() {
    let mut report = Report::new();
    report.add_outcome(
        String::from("Historical Subdomains (AlienVault)"),
        SourceOutcome::Records(strings(&["a.example.com"])),
    );
    assert_eq!(report.sections.len(), 1);
    assert_eq!(report.sections[0].label, "Historical Subdomains (AlienVault)");
    assert_eq!(report.sections[0].lines, strings(&["a.example.com"]));
    assert!(report.diagnostics.is_empty());
}

#[test]
fn empty_outcomes_are_suppressed() {
    let mut report = Report::new();
    report.add_outcome(String::from("URL List (AlienVault)"), SourceOutcome::Empty);
    report.add_outcome(
        String::from("HTTP Scans (AlienVault)"),
        SourceOutcome::Records(Vec::new()),
    );
    assert!(report.sections.is_empty());
    assert!(report.diagnostics.is_empty());
}

#[test]
fn failed_outcome_becomes_a_diagnostic() {
    let mut report = Report::new();
    report.add_outcome(
        String::from("Subdomains from crt.sh (Active & Expired Certificates)"),
        SourceOutcome::Failed(FetchFailure::BadStatus(502)),
    );
    assert!(report.sections.is_empty());
    assert_eq!(report.diagnostics.len(), 1);
    assert!(matches!(
        report.diagnostics[0].failure,
        StepFailure::Fetch(FetchFailure::BadStatus(502))
    ));
}

#[test]
fn dns_failure_becomes_a_diagnostic_and_does_not_stop_later_steps() {
    let mut report = Report::new();
    report.add_dns_outcome(String::from("TXT Records"), Err(DnsErrorKind::Timeout));
    report.add_dns_outcome(String::from("MX Records"), Ok(strings(&["10 -> mail.example.com"])));
    assert_eq!(report.sections.len(), 1);
    assert_eq!(report.sections[0].label, "MX Records");
    assert_eq!(report.diagnostics.len(), 1);
    assert!(matches!(report.diagnostics[0].failure, StepFailure::Dns(DnsErrorKind::Timeout)));
}

#[test]
fn categories_run_in_driver_order() {
    let order = category_order();
    assert_eq!(order.len(), 11);
    assert_eq!(order[0], Category::Addresses);
    assert_eq!(order[4], Category::NsRecords);
    assert_eq!(order[5], Category::HistoricalSubdomains);
    assert_eq!(order[10], Category::CrtShNames);
    assert_eq!(Category::Addresses.label(), "A/AAAA Records");
    assert_eq!(
        Category::CrtShNames.label(),
        "Subdomains from crt.sh (Active & Expired Certificates)"
    );
}

#[test]
fn empty_sections_shown_under_the_alternate_policy() {
    let mut report = Report::with_empty_sections();
    report.add_outcome(String::from("URL List (AlienVault)"), SourceOutcome::Empty);
    report.add_outcome(
        String::from("HTTP Scans (AlienVault)"),
        SourceOutcome::Records(Vec::new()),
    );
    assert_eq!(report.sections.len(), 2);
    assert_eq!(report.sections[0].label, "URL List (AlienVault)");
    assert!(report.sections[0].lines.is_empty());
    assert_eq!(report.sections[1].label, "HTTP Scans (AlienVault)");
    assert!(report.sections[1].lines.is_empty());
    assert!(report.diagnostics.is_empty());
}

#[test]
fn report_file_gets_text_extension() {
    assert_eq!(report_filename("Results"), "Results.txt");
}

#[test]
fn example_com_without_credentials_keeps_live_dns_sections() {
    // The end-to-end shape of a run against example.com with no
    // credentials: live DNS answers arrive, the unauthenticated OSINT
    // queries are refused with 401/403 and degrade to empty sets, and
    // the certificate-log queries still run and report.
    let mut report = Report::new();
    report.add_dns_outcome(
        String::from("A/AAAA Records"),
        Ok(strings(&["93.184.216.34", "2606:2800:220:1:248:1893:25c8:1946"])),
    );
    report.add_dns_outcome(String::from("TXT Records"), Ok(strings(&["v=spf1 -all"])));
    report.add_dns_outcome(String::from("CNAME Chain"), Err(DnsErrorKind::NotFound));
    report.add_dns_outcome(String::from("MX Records"), Ok(strings(&["0 -> ."])));
    report.add_dns_outcome(
        String::from("Nameservers Record"),
        Ok(strings(&["a.iana-servers.net."])),
    );
    for label in [
        "Historical Subdomains (AlienVault)",
        "WHOIS Information (AlienVault)",
        "URL List (AlienVault)",
        "HTTP Scans (AlienVault)",
    ] {
        let outcome = settle_osint_query(401, Vec::new());
        assert!(matches!(outcome, SourceOutcome::Empty));
        report.add_outcome(String::from(label), outcome);
    }
    report.add_outcome(
        String::from("Historical TXT Records (CertSpotter)"),
        SourceOutcome::Records(strings(&["example.com", "www.example.com"])),
    );
    report.add_outcome(
        String::from("Subdomains from crt.sh (Active & Expired Certificates)"),
        SourceOutcome::Records(strings(&["example.com", "www.example.com"])),
    );
    let labels: Vec<&str> = report.sections.iter().map(|s| s.label.as_str()).collect();
    assert!(labels.contains(&"A/AAAA Records"));
    assert!(labels.contains(&"TXT Records"));
    assert!(labels.contains(&"MX Records"));
    assert!(labels.contains(&"Nameservers Record"));
    assert!(labels.contains(&"Historical TXT Records (CertSpotter)"));
    // The refused OSINT steps were degraded, not reported as failures.
    assert_eq!(report.diagnostics.len(), 1);
    assert!(matches!(report.diagnostics[0].failure, StepFailure::Dns(DnsErrorKind::NotFound)));
}
