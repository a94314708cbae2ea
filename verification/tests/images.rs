use std::collections::HashMap;

use reqwest::StatusCode;
use ygo_cards::cards::images::{
    after_head_fallback, classify_image_response, image_request_decision, image_url,
    is_image_response, needs_get_fallback, non_image_response_reason, progress_bar,
    GenerationOptions, ImageCheck, ImageResolver, ImageStep, ProgressState, RequestDecision,
    RequestOutcome,
};
use ygo_cards::environment::Environment;

fn options(check_images: bool, skip_image_failures: bool) -> GenerationOptions {
    GenerationOptions { check_images, skip_image_failures }
}

/// Resolves a card's image, answering each check the resolver asks for
/// from `outcomes`; panics when it asks for an image that is not there.
fn resolve_with(resolver: &mut ImageResolver, id: i64, alias: i64, outcomes: &mut HashMap<i64, ImageCheck>) -> Option<i64> {
    let mut step = resolver.resolve(Environment::Ot, id, "Card", alias);
    loop {
        match step {
            ImageStep::Settled(image) => return image,
            ImageStep::Check { image_id, .. } => {
                let outcome = outcomes.remove(&image_id).expect("unexpected image check");
                step = resolver.resume(outcome);
            },
        }
    }
}

#[test]
fn builds_image_urls() {
    assert_eq!(image_url("https://example.test/cards/", 89631139), "https://example.test/cards/89631139.jpg");
}

#[test]
fn trims_every_trailing_slash_of_the_base_url() {
    assert_eq!(image_url("https://example.test/cards//", 5), "https://example.test/cards/5.jpg");
    assert_eq!(image_url("https://example.test/cards", -5), "https://example.test/cards/-5.jpg");
}

#[test]
fn describes_non_image_responses() {
    assert_eq!(
        non_image_response_reason(StatusCode::NOT_FOUND.as_u16(), Some("text/html")),
        "HTTP 404 Not Found"
    );
    assert_eq!(
        non_image_response_reason(StatusCode::OK.as_u16(), Some("text/html")),
        "HTTP 200 OK; Content-Type text/html is not an image"
    );
    assert_eq!(
        non_image_response_reason(StatusCode::OK.as_u16(), None),
        "HTTP 200 OK; missing or invalid Content-Type"
    );
}

#[test]
fn classifies_image_responses() {
    assert!(is_image_response(200, Some("image/jpeg")));
    assert!(!is_image_response(200, Some("text/html")));
    assert!(!is_image_response(404, Some("image/jpeg")));
    assert!(classify_image_response(206, Some("image/png")).is_found());
    assert_eq!(
        classify_image_response(599, None).failure_reason(),
        Some(String::from("HTTP 599 <unknown status code>"))
    );
}

#[test]
fn keeps_cards_with_failed_images_by_default() {
    let mut resolver = ImageResolver::new(options(true, false), "https://example.test/cards").unwrap();
    let mut outcomes = HashMap::from([
        (100, ImageCheck::Missing(String::from("HTTP 404 Not Found"))),
        (200, ImageCheck::NetworkError(String::from("request timed out"))),
    ]);

    assert_eq!(resolve_with(&mut resolver, 100, 200, &mut outcomes), Some(0));
    assert_eq!(resolver.summary().missing, 1);
    assert_eq!(resolver.summary().cards_skipped, 0);
    let failure = &resolver.failures()[0];
    assert_eq!(failure.id, 100);
    assert_eq!(failure.alias, 200);
    assert_eq!(failure.primary.image_id, 100);
    assert_eq!(failure.primary.reason, "HTTP 404 Not Found");
    assert_eq!(failure.alias_check.as_ref().unwrap().reason, "request timed out");
    assert!(!failure.card_skipped);
}

#[test]
fn skips_cards_with_failed_images_when_enabled() {
    let mut resolver = ImageResolver::new(options(true, true), "https://example.test/cards").unwrap();
    let mut outcomes = HashMap::from([
        (100, ImageCheck::Missing(String::from("HTTP 404 Not Found"))),
        (200, ImageCheck::Missing(String::from("HTTP 404 Not Found"))),
    ]);

    assert_eq!(resolve_with(&mut resolver, 100, 200, &mut outcomes), None);
    assert_eq!(resolver.summary().missing, 1);
    assert_eq!(resolver.summary().cards_skipped, 1);
    assert!(resolver.failures()[0].card_skipped);
}

#[test]
fn uses_an_available_alias_after_a_primary_failure() {
    let mut resolver = ImageResolver::new(options(true, true), "https://example.test/cards").unwrap();
    let mut outcomes = HashMap::from([
        (100, ImageCheck::Missing(String::from("HTTP 404 Not Found"))),
        (200, ImageCheck::Found),
    ]);

    assert_eq!(resolve_with(&mut resolver, 100, 200, &mut outcomes), Some(200));
    assert_eq!(resolver.summary().alias_found, 1);
    assert!(resolver.failures().is_empty());
}

#[test]
fn rejects_skipping_without_image_checks() {
    let error = ImageResolver::new(options(false, true), "").unwrap_err();

    assert_eq!(error.to_string(), "skipping image failures requires image checks");
}

#[test]
fn uses_the_card_id_without_checks() {
    let mut resolver = ImageResolver::new(options(false, false), "").unwrap();
    let mut outcomes = HashMap::new();
    assert_eq!(resolve_with(&mut resolver, 42, 7, &mut outcomes), Some(42));
    assert_eq!(resolver.summary().cards_checked, 0);
}

#[test]
fn checks_each_image_once() {
    let mut resolver = ImageResolver::new(options(true, false), "https://example.test/").unwrap();
    let mut outcomes = HashMap::from([(1, ImageCheck::Found)]);
    assert_eq!(resolve_with(&mut resolver, 1, 0, &mut outcomes), Some(1));
    match resolver.resolve(Environment::Rd, 2, "Other", 1) {
        ImageStep::Check { image_id, url } => {
            assert_eq!(image_id, 2);
            assert_eq!(url, "https://example.test/2.jpg");
        },
        other => panic!("expected a check, got {other:?}"),
    }
    assert!(matches!(resolver.resume(ImageCheck::Missing(String::from("gone"))), ImageStep::Settled(Some(1))));
    let summary = resolver.summary();
    assert_eq!(summary.cards_checked, 2);
    assert_eq!(summary.primary_found, 1);
    assert_eq!(summary.alias_found, 1);
    assert_eq!(summary.cache_hits, 1);
    assert_eq!(summary.unique_urls_found, 1);
    assert_eq!(summary.unique_urls_missing, 1);
    let warnings = resolver.take_diagnostics();
    assert_eq!(warnings.len(), 1);
    assert_eq!(warnings[0].code(), "image.candidate-failed");
    assert!(resolver.take_diagnostics().is_empty());
}

#[test]
fn warns_about_unresolved_cards() {
    let mut resolver = ImageResolver::new(options(true, true), "https://example.test").unwrap();
    let mut outcomes = HashMap::from([(9, ImageCheck::NetworkError(String::from("timed out")))]);
    assert_eq!(resolve_with(&mut resolver, 9, 9, &mut outcomes), None);
    let warnings = resolver.take_diagnostics();
    assert_eq!(warnings.len(), 2);
    assert_eq!(warnings[1].code(), "image.unresolved");
    let fields: Vec<(&str, &str)> = warnings[1].fields().iter().map(|f| (f.label(), f.value())).collect();
    assert_eq!(
        fields,
        vec![("Environment", "OT"), ("Card ID", "9"), ("Alias", "9"), ("Name", "Card"), ("Action", "card skipped")]
    );
    assert_eq!(resolver.summary().network_errors, 1);
}

#[test]
fn retries_image_requests_until_the_last_attempt() {
    match image_request_decision("HEAD", "https://x/1.jpg", 1, &RequestOutcome::Responded(503)) {
        RequestDecision::Retry { delay_secs, diagnostic } => {
            assert_eq!(delay_secs, 1);
            assert_eq!(diagnostic.reason_text(), Some("HTTP 503 Service Unavailable"));
            let fields: Vec<(&str, &str)> = diagnostic.fields().iter().map(|f| (f.label(), f.value())).collect();
            assert_eq!(
                fields,
                vec![("Method", "HEAD"), ("URL", "https://x/1.jpg"), ("Attempt", "1 of 3"), ("Retry in", "1 seconds")]
            );
        },
        other => panic!("expected a retry, got {other:?}"),
    }
    assert!(matches!(
        image_request_decision("HEAD", "u", 3, &RequestOutcome::Responded(503)),
        RequestDecision::Accept
    ));
    assert!(matches!(image_request_decision("HEAD", "u", 1, &RequestOutcome::Responded(404)), RequestDecision::Accept));
    match image_request_decision("GET", "u", 3, &RequestOutcome::Failed(String::from("reset"))) {
        RequestDecision::GiveUp(message) => assert_eq!(message, "failed to check image with GET u after 3 attempts"),
        other => panic!("expected to give up, got {other:?}"),
    }
    match image_request_decision("GET", "u", 2, &RequestOutcome::Failed(String::from("reset"))) {
        RequestDecision::Retry { delay_secs, .. } => assert_eq!(delay_secs, 4),
        other => panic!("expected a retry, got {other:?}"),
    }
}

#[test]
fn falls_back_to_get_when_head_is_refused() {
    assert!(needs_get_fallback(405));
    assert!(!needs_get_fallback(404));
    assert_eq!(
        after_head_fallback(ImageCheck::Missing(String::from("HTTP 404 Not Found"))).failure_reason(),
        Some(String::from("HEAD returned HTTP 405 Method Not Allowed; GET fallback: HTTP 404 Not Found"))
    );
    assert!(after_head_fallback(ImageCheck::Found).is_found());
}

#[test]
fn draws_progress_bars() {
    assert_eq!(progress_bar("checking OT images", 5, 10), "\rchecking OT images [###############...............] 5/10");
    assert_eq!(progress_bar("x", 0, 0), "\rx [..............................] 0/0");
    let mut progress = ProgressState::new(3, "p");
    assert_eq!(progress.advance(), Some(String::from("\rp [##########....................] 1/3")));
    assert_eq!(progress.finish(), "\rp [##############################] 3/3");
}
