use std::time::Duration;

use reqwest::StatusCode;
use ygo_cards::endpoints::{self, Endpoints, PublishedDatasetUrls, SourceResource, SourceResourceUrls};
use ygo_cards::environment::Environment;
use ygo_cards::formatting::{format_count, plural};
use ygo_cards::http::{backoff_delay, is_retryable_status, status_display, status_text_of};
use ygo_cards::urls::{self, LatestJsonUrls, ResourceUrlKey, ResourceUrls, UrlConfig, UrlProblem};

fn endpoint_config() -> Endpoints {
    Endpoints {
        source_resources: SourceResourceUrls {
            ot_cards_database: String::from("https://cdn.example.test/ygopro-database/locales/zh-CN/cards.cdb"),
            ot_forbidden_list: String::from("https://cdn.example.test/ygopro/lflist.conf"),
            rd_cards_database: String::from("https://cdn.example.test/ygopro-rush/rd_standard.cdb"),
            rd_forbidden_list: String::from("https://cdn.example.test/ygopro-rush/lflist.conf"),
        },
        published_datasets: PublishedDatasetUrls {
            ot: String::from("https://github.com/arshtyi/ygo-cards/releases/latest/download/ot.json"),
            rd: String::from("https://github.com/arshtyi/ygo-cards/releases/latest/download/rd.json"),
        },
        card_image_base_url: String::from("https://images.ygoprodeck.com/images/cards_cropped"),
    }
}

fn url_config() -> UrlConfig {
    UrlConfig {
        resources: ResourceUrls {
            ot_cards_database: String::from("https://cdn.example.test/ygopro-database/locales/zh-CN/cards.cdb"),
            ot_forbidden_list: String::from("https://cdn.example.test/ygopro/lflist.conf"),
            rd_cards_database: String::from("https://cdn.example.test/ygopro-rush/rd_standard.cdb"),
            rd_forbidden_list: String::from("https://cdn.example.test/ygopro-rush/lflist.conf"),
        },
        latest_json: LatestJsonUrls {
            ot: String::from("https://github.com/arshtyi/ygo-cards/releases/latest/download/ot.json"),
            rd: String::from("https://github.com/arshtyi/ygo-cards/releases/latest/download/rd.json"),
        },
        image_base_url: String::from("https://images.ygoprodeck.com/images/cards_cropped"),
    }
}

#[test]
fn loads_endpoint_config() {
    let config = endpoints::endpoints(endpoint_config()).unwrap();

    assert!(config.source_url(SourceResource::OtCardsDatabase).ends_with("/cards.cdb"));
    assert!(config.published_dataset_url(Environment::Rd).ends_with("/rd.json"));
    assert!(config.card_image_base_url().starts_with("https://"));
}

#[test]
fn endpoints_rejects_invalid_url_values() {
    assert!(endpoints::validate_url("field", "").is_err());
    assert!(endpoints::validate_url("field", " https://example.test").is_err());
    assert!(endpoints::validate_url("field", "file:///tmp/cards.cdb").is_err());
    assert!(endpoints::validate_url("field", "https://example.test/cards.cdb").is_ok());
}

#[test]
fn loads_url_config() {
    let config = urls::urls(url_config()).unwrap();

    assert!(config.resource_url(ResourceUrlKey::OtCardsDatabase).ends_with("/cards.cdb"));
    assert!(config.latest_json_url("RD").unwrap().ends_with("/rd.json"));
    assert!(config.image_base_url().starts_with("https://"));
}

#[test]
fn urls_rejects_invalid_url_values() {
    assert!(urls::validate_url("field", "").is_err());
    assert!(urls::validate_url("field", " https://example.test").is_err());
    assert!(urls::validate_url("field", "file:///tmp/cards.cdb").is_err());
    assert!(urls::validate_url("field", "https://example.test/cards.cdb").is_ok());
}

#[test]
fn explains_refused_urls() {
    let empty = urls::validate_url("imageBaseUrl", "  ").unwrap_err();
    assert_eq!(empty.problem, UrlProblem::Empty);
    assert_eq!(empty.message(), "URL config field imageBaseUrl must not be empty");
    let padded = endpoints::validate_url("cardImageBaseUrl", "https://x ").unwrap_err();
    assert_eq!(
        padded.message(),
        "endpoint config field cardImageBaseUrl must not contain leading or trailing whitespace"
    );
    let scheme = urls::validate_url("f", "ftp://x").unwrap_err();
    assert_eq!(scheme.message(), "URL config field f must use http or https: ftp://x");
}

#[test]
fn refuses_the_first_bad_field_in_order() {
    let mut config = url_config();
    config.latest_json.rd = String::from("rd.json");
    config.image_base_url = String::new();
    let error = urls::urls(config).unwrap_err();
    assert_eq!(error.field, "latestJson.rd");
    assert_eq!(error.problem, UrlProblem::UnsupportedScheme);

    let mut endpoints_config = endpoint_config();
    endpoints_config.source_resources.rd_forbidden_list = String::from(" ");
    let error = endpoints::endpoints(endpoints_config).unwrap_err();
    assert_eq!(error.field, "sourceResources.rdForbiddenList");
    assert_eq!(error.problem, UrlProblem::Empty);
}

#[test]
fn refuses_unknown_environment_labels() {
    let config = url_config();
    assert!(config.latest_json_url("OT").unwrap().ends_with("/ot.json"));
    assert_eq!(config.latest_json_url("XX").unwrap_err(), "unsupported environment label XX");
}

#[test]
fn formats_environment_labels() {
    assert_eq!(Environment::Ot.label(), "OT");
    assert_eq!(Environment::Rd.label(), "RD");
}

#[test]
fn identifies_retryable_statuses() {
    assert!(is_retryable_status(StatusCode::REQUEST_TIMEOUT.as_u16()));
    assert!(is_retryable_status(StatusCode::TOO_MANY_REQUESTS.as_u16()));
    assert!(is_retryable_status(StatusCode::INTERNAL_SERVER_ERROR.as_u16()));
    assert!(!is_retryable_status(StatusCode::NOT_FOUND.as_u16()));
}

#[test]
fn uses_quadratic_backoff() {
    assert_eq!(Duration::from_secs(backoff_delay(1)), Duration::from_secs(1));
    assert_eq!(Duration::from_secs(backoff_delay(3)), Duration::from_secs(9));
}

#[test]
fn shows_statuses_as_the_http_crate_does() {
    assert_eq!(status_display(404), StatusCode::NOT_FOUND.to_string());
    assert_eq!(status_display(429), "429 Too Many Requests");
    assert_eq!(status_display(599), "599 <unknown status code>");
}

#[test]
fn formats_counts_and_plurals() {
    assert_eq!(format_count(12_345_678_u64), "12,345,678");
    assert_eq!(plural(1, "card", "cards"), "card");
    assert_eq!(plural(2, "card", "cards"), "cards");
}

#[test]
fn groups_counts_of_every_length() {
    assert_eq!(format_count(0), "0");
    assert_eq!(format_count(999), "999");
    assert_eq!(format_count(1000), "1,000");
    assert_eq!(format_count(u64::MAX), "18,446,744,073,709,551,615");
}

#[test]
fn writes_a_status_with_the_reason_it_is_given() {
    assert_eq!(status_text_of(404, Some("Not Found")), "404 Not Found");
    assert_eq!(status_text_of(599, None), "599 <unknown status code>");
    assert_eq!(status_text_of(7, Some("odd")), "7 odd");
}
