use std::collections::HashSet;

use ygo_cards::resources::{
    asset_path, download_step, resource_definitions, resource_request_step, retry_delay,
    validate_download_size, DownloadDecision, DownloadOutcome, ResourceRequestDecision, ResourceResponse, ASSETS_DIR,
};
use ygo_cards::urls::ResourceUrlKey;

#[test]
fn asset_paths_are_unique_and_scoped() {
    let mut paths = HashSet::new();

    for definition in resource_definitions() {
        let path = asset_path(&definition);
        assert!(std::path::Path::new(&path).starts_with(ASSETS_DIR));
        assert!(paths.insert(path));
    }
}

#[test]
fn lists_the_upstream_resources() {
    let definitions = resource_definitions();
    let paths: Vec<String> = definitions.iter().map(asset_path).collect();
    assert_eq!(paths, vec!["assets/ot/cards.cdb", "assets/ot/lflist.conf", "assets/rd/rd_standard.cdb", "assets/rd/lflist.conf"]);
    assert_eq!(definitions[2].name, "rd cards database");
    assert!(matches!(definitions[3].url, ResourceUrlKey::RdForbiddenList));
}

#[test]
fn checks_download_sizes() {
    assert_eq!(validate_download_size("ot cards database", 0, None).unwrap_err(), "downloaded empty asset for ot cards database");
    assert_eq!(
        validate_download_size("x", 10, Some(12)).unwrap_err(),
        "downloaded 10 bytes for x, expected 12"
    );
    assert!(validate_download_size("x", 10, Some(10)).is_ok());
    assert!(validate_download_size("x", 10, None).is_ok());
}

#[test]
fn waits_as_the_server_asks() {
    assert_eq!(retry_delay(Some("7"), 503, 1), 7);
    assert_eq!(retry_delay(Some("+7"), 503, 1), 7);
    assert_eq!(retry_delay(Some("soon"), 503, 3), 9);
    assert_eq!(retry_delay(None, 500, 2), 4);
    assert_eq!(retry_delay(Some("5"), 429, 1), 60);
    assert_eq!(retry_delay(Some("120"), 429, 1), 120);
    assert_eq!(retry_delay(Some("-1"), 502, 2), 4);
}

#[test]
fn decides_what_follows_a_resource_request() {
    let ok = ResourceResponse::Responded { status: 200, retry_after: None };
    assert!(matches!(resource_request_step("ot cards database", "u", 1, &ok), ResourceRequestDecision::Accept));

    let busy = ResourceResponse::Responded { status: 503, retry_after: Some(String::from("3")) };
    match resource_request_step("ot cards database", "u", 2, &busy) {
        ResourceRequestDecision::Retry { delay_secs, warning } => {
            assert_eq!(delay_secs, 3);
            assert_eq!(
                warning,
                "resource request will be retried: resource=\"ot cards database\" url=u attempt=2/4 status=\"HTTP 503 Service Unavailable\" retry_in=3s"
            );
        },
        other => panic!("expected a retry, got {other:?}"),
    }
    match resource_request_step("x", "u", 4, &busy) {
        ResourceRequestDecision::GiveUp(message) => assert_eq!(message, "failed to download x from u: HTTP 503 Service Unavailable"),
        other => panic!("expected to give up, got {other:?}"),
    }
    let missing = ResourceResponse::Responded { status: 404, retry_after: None };
    assert!(matches!(resource_request_step("x", "u", 1, &missing), ResourceRequestDecision::GiveUp(_)));
    let failed = ResourceResponse::Failed(String::from("connection reset"));
    match resource_request_step("x", "u", 1, &failed) {
        ResourceRequestDecision::Retry { delay_secs, warning } => {
            assert_eq!(delay_secs, 1);
            assert!(warning.ends_with("reason=connection reset; retry_in=1s"));
        },
        other => panic!("expected a retry, got {other:?}"),
    }
    match resource_request_step("x", "u", 4, &failed) {
        ResourceRequestDecision::GiveUp(message) => assert_eq!(message, "failed to download x from u after 4 attempts"),
        other => panic!("expected to give up, got {other:?}"),
    }
}

#[test]
fn decides_what_follows_a_download_attempt() {
    let written = DownloadOutcome::Written { bytes: 512, expected_length: Some(512) };
    match download_step("x", "u", "assets/ot/cards.cdb", 2, &written) {
        DownloadDecision::Done(resource) => {
            assert_eq!(resource.path, "assets/ot/cards.cdb");
            assert_eq!(resource.bytes, 512);
            assert_eq!(resource.attempts, 2);
        },
        other => panic!("expected the download to be done, got {other:?}"),
    }
    let failed = DownloadOutcome::Failed(String::from("short read"));
    match download_step("x", "u", "p", 3, &failed) {
        DownloadDecision::Retry { delay_secs, warning } => {
            assert_eq!(delay_secs, 9);
            assert_eq!(
                warning,
                "resource download attempt failed: resource=\"x\" url=u destination=p attempt=3/4 reason=short read; retry_in=9s"
            );
        },
        other => panic!("expected a retry, got {other:?}"),
    }
    match download_step("x", "u", "p", 4, &failed) {
        DownloadDecision::GiveUp { context, cause } => {
            assert_eq!(context, "failed to download x from u to p");
            assert_eq!(cause, None);
        },
        other => panic!("expected to give up, got {other:?}"),
    }
}

#[test]
fn a_download_of_the_wrong_size_is_not_done() {
    let empty = DownloadOutcome::Written { bytes: 0, expected_length: None };
    match download_step("x", "u", "p", 1, &empty) {
        DownloadDecision::Retry { delay_secs, warning } => {
            assert_eq!(delay_secs, 1);
            assert_eq!(
                warning,
                "resource download attempt failed: resource=\"x\" url=u destination=p attempt=1/4 reason=downloaded empty asset for x; retry_in=1s"
            );
        },
        other => panic!("expected a retry, got {other:?}"),
    }
    let short = DownloadOutcome::Written { bytes: 10, expected_length: Some(12) };
    match download_step("x", "u", "p", 4, &short) {
        DownloadDecision::GiveUp { context, cause } => {
            assert_eq!(context, "failed to download x from u to p");
            assert_eq!(cause, Some(String::from("downloaded 10 bytes for x, expected 12")));
        },
        other => panic!("expected to give up, got {other:?}"),
    }
    let unannounced = DownloadOutcome::Written { bytes: 10, expected_length: None };
    assert!(matches!(download_step("x", "u", "p", 4, &unannounced), DownloadDecision::Done(_)));
}
