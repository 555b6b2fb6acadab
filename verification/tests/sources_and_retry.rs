use dns_recon::errors::classify_status;
use dns_recon::errors::is_service_unavailable;
use dns_recon::errors::is_transient;
use dns_recon::errors::FetchFailure;
use dns_recon::errors::StatusClass;
use dns_recon::retry::backoff_secs;
use dns_recon::retry::replay_attempts;
use dns_recon::retry::retry_decision;
use dns_recon::retry::AttemptOutcome;
use dns_recon::retry::RetryDecision;
use dns_recon::sources::certspotter_url;
use dns_recon::sources::crtsh_url;
use dns_recon::sources::otx_api_key_header;
use dns_recon::sources::otx_indicator_url;
use dns_recon::sources::plan_otx_request;
use dns_recon::sources::render_http_scans;
use dns_recon::sources::render_scan_field;
use dns_recon::sources::truncate_scan_value;
use dns_recon::sources::usable_credential;
use dns_recon::sources::whois_lines;
use dns_recon::sources::ScanField;
use dns_recon::sources::ScanValue;
use dns_recon::sources::WhoisSummary;

#[test]
fn missing_credential_is_never_attached() {
    assert!(usable_credential(&None).is_none());
}

#[test]
fn empty_credential_is_never_attached() {
    assert!(usable_credential(&Some(String::new())).is_none());
}

#[test]
fn placeholder_credential_is_never_attached() {
    assert!(usable_credential(&Some(String::from("No AV key"))).is_none());
    assert!(usable_credential(&Some(String::from("-- No AV key --"))).is_none());
}

#[test]
fn real_credential_is_attached_unchanged() {
    let key = usable_credential(&Some(String::from("SECRET-REDACTED")));
    assert_eq!(key.unwrap(), "SECRET-REDACTED");
}

#[test]
fn otx_request_plan_carries_url_and_vetted_key() {
    let plan = plan_otx_request("example.com", "passive_dns", &None);
    assert_eq!(
        plan.url,
        "https://otx.alienvault.com/api/v1/indicators/domain/example.com/passive_dns"
    );
    assert!(plan.api_key.is_none());
    let plan = plan_otx_request("example.com", "whois", &Some(String::from("k")));
    assert_eq!(plan.url, "https://otx.alienvault.com/api/v1/indicators/domain/example.com/whois");
    assert_eq!(plan.api_key.unwrap(), "k");
}

#[test]
fn source_urls_are_exact() {
    assert_eq!(
        otx_indicator_url("example.com", "url_list"),
        "https://otx.alienvault.com/api/v1/indicators/domain/example.com/url_list"
    );
    assert_eq!(crtsh_url("example.com"), "https://crt.sh/?q=%.example.com&output=json");
    assert_eq!(
        certspotter_url("example.com"),
        "https://api.certspotter.com/v1/issuances?domain=example.com&include_subdomains=true&expand=dns_names"
    );
    assert_eq!(otx_api_key_header(), "X-OTX-API-KEY");
}

#[test]
fn long_scan_value_is_truncated_with_ellipsis() {
    let long: String = "x".repeat(150);
    let rendered = truncate_scan_value(&long);
    let mut expected = "x".repeat(100);
    expected.push_str("...");
    assert_eq!(rendered, expected);
}

#[test]
fn short_scan_value_is_kept_whole() {
    let short: String = "y".repeat(50);
    assert_eq!(truncate_scan_value(&short), short);
    let exact: String = "z".repeat(100);
    assert_eq!(truncate_scan_value(&exact), exact);
}

#[test]
fn scan_field_renders_name_and_value() {
    let f = ScanField {
        name: String::from("server"),
        value: ScanValue::Text(String::from("nginx")),
    };
    assert_eq!(render_scan_field(&f), "server: nginx");
    let f = ScanField { name: String::from("port"), value: ScanValue::Rendered(String::from("443")) };
    assert_eq!(render_scan_field(&f), "port: 443");
}

#[test]
fn scan_lines_keep_order_and_truncate_strings() {
    let fields = vec![
        ScanField { name: String::from("title"), value: ScanValue::Text("t".repeat(150)) },
        ScanField { name: String::from("secure"), value: ScanValue::Rendered(String::from("true")) },
    ];
    let lines = render_http_scans(&fields);
    let mut first = String::from("title: ");
    first.push_str(&"t".repeat(100));
    first.push_str("...");
    assert_eq!(lines, vec![first, String::from("secure: true")]);
}

#[test]
fn whois_summary_emits_only_non_empty_fields() {
    let w = WhoisSummary {
        registrar: String::from("Example Registrar"),
        creation_date: String::new(),
        expiration_date: String::from("2031-01-01"),
        name_servers: vec![String::from("ns1.example.com"), String::from("ns2.example.com")],
    };
    let lines = whois_lines(&w);
    assert_eq!(
        lines,
        vec![
            String::from("Registrar: Example Registrar"),
            String::from("Expires: 2031-01-01"),
            String::from("Name Servers: ns1.example.com, ns2.example.com"),
        ]
    );
}

#[test]
fn whois_summary_of_nothing_is_empty() {
    let w = WhoisSummary {
        registrar: String::new(),
        creation_date: String::new(),
        expiration_date: String::new(),
        name_servers: Vec::new(),
    };
    assert!(whois_lines(&w).is_empty());
}

#[test]
fn status_classes() {
    assert_eq!(classify_status(200), StatusClass::Success);
    assert_eq!(classify_status(204), StatusClass::Success);
    assert_eq!(classify_status(299), StatusClass::Success);
    assert_eq!(classify_status(401), StatusClass::AuthRefused);
    assert_eq!(classify_status(403), StatusClass::AuthRefused);
    assert_eq!(classify_status(404), StatusClass::Failure);
    assert_eq!(classify_status(500), StatusClass::Failure);
    assert_eq!(classify_status(302), StatusClass::Failure);
}

#[test]
fn failure_classification() {
    assert!(is_transient(&FetchFailure::Transport));
    assert!(!is_transient(&FetchFailure::BadStatus(502)));
    assert!(!is_transient(&FetchFailure::MalformedBody));
    assert!(is_service_unavailable(&FetchFailure::BadStatus(502)));
    assert!(is_service_unavailable(&FetchFailure::BadStatus(503)));
    assert!(is_service_unavailable(&FetchFailure::BadStatus(504)));
    assert!(!is_service_unavailable(&FetchFailure::BadStatus(500)));
    assert!(!is_service_unavailable(&FetchFailure::Transport));
}

#[test]
fn backoff_grows_linearly() {
    assert_eq!(backoff_secs(1), 2);
    assert_eq!(backoff_secs(2), 4);
    assert_eq!(backoff_secs(3), 6);
}

#[test]
fn retry_decisions_per_attempt() {
    let transient = AttemptOutcome::Failed(FetchFailure::Transport);
    let terminal = AttemptOutcome::Failed(FetchFailure::BadStatus(404));
    let delivered = AttemptOutcome::Delivered(vec![String::from("a.example.com")]);
    assert_eq!(retry_decision(1, &transient), RetryDecision::RetryAfter(2));
    assert_eq!(retry_decision(2, &transient), RetryDecision::RetryAfter(4));
    assert_eq!(retry_decision(3, &transient), RetryDecision::GiveUp);
    assert_eq!(retry_decision(1, &terminal), RetryDecision::Accept);
    assert_eq!(retry_decision(2, &delivered), RetryDecision::Accept);
}

#[test]
fn two_transient_failures_then_success_takes_three_attempts() {
    let outcomes = vec![
        AttemptOutcome::Failed(FetchFailure::Transport),
        AttemptOutcome::Failed(FetchFailure::Transport),
        AttemptOutcome::Delivered(vec![String::from("a.example.com")]),
    ];
    let (attempts, last) = replay_attempts(outcomes);
    assert_eq!(attempts, 3);
    match last {
        AttemptOutcome::Delivered(records) => {
            assert_eq!(records, vec![String::from("a.example.com")])
        },
        AttemptOutcome::Failed(_) => panic!("third attempt's delivery was not returned"),
    }
}

#[test]
fn always_failing_source_surfaces_last_error_after_three_attempts() {
    let outcomes = vec![
        AttemptOutcome::Failed(FetchFailure::Transport),
        AttemptOutcome::Failed(FetchFailure::Transport),
        AttemptOutcome::Failed(FetchFailure::Transport),
    ];
    let (attempts, last) = replay_attempts(outcomes);
    assert_eq!(attempts, 3);
    assert!(matches!(last, AttemptOutcome::Failed(FetchFailure::Transport)));
}

#[test]
fn immediate_success_takes_one_attempt() {
    let outcomes = vec![
        AttemptOutcome::Delivered(Vec::new()),
        AttemptOutcome::Failed(FetchFailure::Transport),
        AttemptOutcome::Failed(FetchFailure::Transport),
    ];
    let (attempts, last) = replay_attempts(outcomes);
    assert_eq!(attempts, 1);
    assert!(matches!(last, AttemptOutcome::Delivered(_)));
}

#[test]
fn terminal_status_ends_attempts_at_once() {
    let outcomes = vec![
        AttemptOutcome::Failed(FetchFailure::BadStatus(502)),
        AttemptOutcome::Failed(FetchFailure::Transport),
        AttemptOutcome::Failed(FetchFailure::Transport),
    ];
    let (attempts, last) = replay_attempts(outcomes);
    assert_eq!(attempts, 1);
    assert!(matches!(last, AttemptOutcome::Failed(FetchFailure::BadStatus(502))));
}
