use dns_mesh::{
    check, classify, first_address, ipv4, verify, AnswerRecord, CheckOutcome, CheckReport,
    MeshRun, NameServerEntry, QueryError, Registry, RegistryError,
};

fn entry(name: &str, address: u32) -> NameServerEntry {
    NameServerEntry { name: name.to_string(), address }
}

fn two_servers() -> Registry {
    Registry::new(vec![
        entry("ns1.rhiyo.com.", ipv4(173, 255, 245, 83)),
        entry("ns2.rhiyo.com.", ipv4(212, 71, 246, 209)),
    ])
    .unwrap()
}

/// Drives a run to the end, answering each pair with `answer(source, target)`.
fn drive<F>(registry: Registry, answer: F) -> (Vec<CheckReport>, bool)
where
    F: Fn(usize, usize) -> Result<Vec<AnswerRecord>, QueryError>,
{
    let mut run = MeshRun::new(registry);
    while let Some((source, target)) = run.next_pair() {
        let report = run.record(answer(source, target));
        assert_eq!((report.source, report.target), (source, target));
    }
    assert!(run.is_complete());
    (run.reports().clone(), run.failed())
}

fn correct(registry: &Registry, target: usize) -> Result<Vec<AnswerRecord>, QueryError> {
    Ok(vec![AnswerRecord::Address(registry.entries()[target].address)])
}

#[test]
fn ipv4_orders_octets_most_significant_first() {
    assert_eq!(ipv4(173, 255, 245, 83), 0xADFF_F553);
    assert_eq!(ipv4(0, 0, 0, 1), 1);
    assert_eq!(ipv4(255, 255, 255, 255), u32::MAX);
}

#[test]
fn first_address_of_empty_answers_is_no_answer() {
    assert_eq!(first_address(&vec![]), Err(QueryError::NoAnswer));
}

#[test]
fn first_address_reads_only_the_first_record() {
    let answers = vec![AnswerRecord::Address(7), AnswerRecord::Address(9)];
    assert_eq!(first_address(&answers), Ok(7));
    let answers = vec![AnswerRecord::Other, AnswerRecord::Address(9)];
    assert_eq!(first_address(&answers), Err(QueryError::UnexpectedRecordType));
}

#[test]
fn verify_compares_addresses() {
    assert_eq!(verify(5, 5), CheckOutcome::Matched);
    assert_eq!(verify(4, 5), CheckOutcome::Mismatched(4));
    assert!(verify(5, 5).passed());
    assert!(!verify(4, 5).passed());
}

#[test]
fn classify_passes_query_errors_through() {
    assert_eq!(classify(Err(QueryError::Network), 5), CheckOutcome::QueryFailed(QueryError::Network));
    assert_eq!(classify(Ok(6), 5), CheckOutcome::Mismatched(6));
    assert_eq!(classify(Ok(5), 5), CheckOutcome::Matched);
}

#[test]
fn check_classifies_each_kind_of_response() {
    assert_eq!(check(&Ok(vec![AnswerRecord::Address(3)]), 3), CheckOutcome::Matched);
    assert_eq!(check(&Ok(vec![AnswerRecord::Address(2)]), 3), CheckOutcome::Mismatched(2));
    assert_eq!(check(&Ok(vec![]), 3), CheckOutcome::QueryFailed(QueryError::NoAnswer));
    assert_eq!(
        check(&Ok(vec![AnswerRecord::Other]), 3),
        CheckOutcome::QueryFailed(QueryError::UnexpectedRecordType)
    );
    assert_eq!(check(&Err(QueryError::Network), 3), CheckOutcome::QueryFailed(QueryError::Network));
}

#[test]
fn registry_keeps_entries_in_order() {
    let registry = two_servers();
    assert_eq!(registry.len(), 2);
    assert_eq!(registry.entries()[0].name, "ns1.rhiyo.com.");
    assert_eq!(registry.entries()[1].name, "ns2.rhiyo.com.");
    assert_eq!(registry.entries()[1].address, ipv4(212, 71, 246, 209));
}

#[test]
fn registry_rejects_relative_name() {
    let r = Registry::new(vec![entry("ns1.rhiyo.com.", 1), entry("ns2.rhiyo.com", 2)]);
    assert_eq!(r.unwrap_err(), RegistryError::NotFullyQualified(1));
}

#[test]
fn registry_rejects_text_that_is_no_domain_name() {
    let r = Registry::new(vec![entry("ns1 rhiyo.com.", 1)]);
    assert_eq!(r.unwrap_err(), RegistryError::InvalidName(0));
    let r = Registry::new(vec![entry("ns1.rhiyo.com.", 1), entry("bad\tname.com.", 2)]);
    assert_eq!(r.unwrap_err(), RegistryError::InvalidName(1));
}

#[test]
fn registry_rejects_duplicate_names_regardless_of_case() {
    let r = Registry::new(vec![
        entry("ns1.rhiyo.com.", 1),
        entry("ns2.rhiyo.com.", 2),
        entry("NS1.Rhiyo.com.", 3),
    ]);
    assert_eq!(r.unwrap_err(), RegistryError::DuplicateName(0, 2));
}

#[test]
fn registry_reports_first_faulty_entry() {
    let r = Registry::new(vec![entry("a.example.", 1), entry("a.example.", 2), entry("b", 3)]);
    assert_eq!(r.unwrap_err(), RegistryError::DuplicateName(0, 1));
}

#[test]
fn empty_registry_runs_no_checks_and_passes() {
    let (reports, failed) = drive(Registry::new(vec![]).unwrap(), |_, _| Err(QueryError::Network));
    assert!(reports.is_empty());
    assert!(!failed);
}

#[test]
fn run_checks_every_pair_in_source_major_order() {
    let registry = Registry::new(vec![
        entry("a.example.", 1),
        entry("b.example.", 2),
        entry("c.example.", 3),
    ])
    .unwrap();
    let (reports, _) = drive(registry, |_, t| Ok(vec![AnswerRecord::Address(t as u32 + 1)]));
    assert_eq!(reports.len(), 9);
    for (k, report) in reports.iter().enumerate() {
        assert_eq!(report.source, k / 3);
        assert_eq!(report.target, k % 3);
    }
}

#[test]
fn all_correct_answers_pass() {
    let registry = two_servers();
    let copy = registry.clone();
    let (reports, failed) = drive(registry, |_, t| correct(&copy, t));
    assert_eq!(reports.len(), 4);
    assert!(reports.iter().all(|r| r.outcome == CheckOutcome::Matched));
    assert!(!failed);
}

#[test]
fn one_wrong_answer_fails_only_that_pair() {
    let registry = two_servers();
    let copy = registry.clone();
    let wrong = ipv4(10, 0, 0, 1);
    let (reports, failed) = drive(registry, |s, t| {
        if s == 1 && t == 0 {
            Ok(vec![AnswerRecord::Address(wrong)])
        } else {
            correct(&copy, t)
        }
    });
    assert!(failed);
    let expected = [
        (0, 0, CheckOutcome::Matched),
        (0, 1, CheckOutcome::Matched),
        (1, 0, CheckOutcome::Mismatched(wrong)),
        (1, 1, CheckOutcome::Matched),
    ];
    for (report, (s, t, o)) in reports.iter().zip(expected.iter()) {
        assert_eq!((report.source, report.target, report.outcome), (*s, *t, *o));
    }
}

#[test]
fn empty_answer_is_a_failed_query_and_run_goes_on() {
    let registry = two_servers();
    let copy = registry.clone();
    let (reports, failed) = drive(registry, |s, t| if s == 0 && t == 0 { Ok(vec![]) } else { correct(&copy, t) });
    assert_eq!(reports.len(), 4);
    assert_eq!(reports[0].outcome, CheckOutcome::QueryFailed(QueryError::NoAnswer));
    assert!(reports[1..].iter().all(|r| r.outcome == CheckOutcome::Matched));
    assert!(failed);
}

#[test]
fn unreachable_server_does_not_stop_the_run() {
    let registry = two_servers();
    let copy = registry.clone();
    let (reports, failed) =
        drive(registry, |s, t| if s == 0 { Err(QueryError::Network) } else { correct(&copy, t) });
    assert_eq!(reports.len(), 4);
    assert_eq!(reports[0].outcome, CheckOutcome::QueryFailed(QueryError::Network));
    assert_eq!(reports[1].outcome, CheckOutcome::QueryFailed(QueryError::Network));
    assert_eq!(reports[2].outcome, CheckOutcome::Matched);
    assert_eq!(reports[3].outcome, CheckOutcome::Matched);
    assert!(failed);
}

#[test]
fn failure_flag_is_set_by_any_non_matching_check() {
    let registry = two_servers();
    let mut run = MeshRun::new(registry);
    assert!(!run.failed());
    run.record(Ok(vec![AnswerRecord::Other]));
    assert!(run.failed());
    while run.next_pair().is_some() {
        run.record(Ok(vec![AnswerRecord::Address(ipv4(212, 71, 246, 209))]));
    }
    assert!(run.failed());
    assert_eq!(run.reports()[0].outcome, CheckOutcome::QueryFailed(QueryError::UnexpectedRecordType));
}
