//! The endpoint configuration: where the upstream resources, the published
//! datasets and the card images are.
use vstd::prelude::*;

use crate::environment::Environment;
use crate::urls::{check_fields, first_bad_field, pairs_view, url_problem, UrlFieldError};

verus! {

/// Where the upstream resources are downloaded from.
#[derive(Debug)]
pub struct SourceResourceUrls {
    pub ot_cards_database: String,
    pub ot_forbidden_list: String,
    pub rd_cards_database: String,
    pub rd_forbidden_list: String,
}

/// Where the published datasets are.
#[derive(Debug)]
pub struct PublishedDatasetUrls {
    pub ot: String,
    pub rd: String,
}

/// The endpoint configuration.
#[derive(Debug)]
pub struct Endpoints {
    pub source_resources: SourceResourceUrls,
    pub published_datasets: PublishedDatasetUrls,
    pub card_image_base_url: String,
}

/// An upstream resource.
#[derive(Debug, Clone, Copy, PartialEq, Eq, Structural)]
pub enum SourceResource {
    OtCardsDatabase,
    OtForbiddenList,
    RdCardsDatabase,
    RdForbiddenList,
}

/// The configured URLs with their field names, in the order they are
/// checked.
pub open spec fn endpoint_fields(c: Endpoints) -> Seq<(Seq<char>, Seq<char>)> {
    seq![
        ("sourceResources.otCardsDatabase"@, c.source_resources.ot_cards_database@),
        ("sourceResources.otForbiddenList"@, c.source_resources.ot_forbidden_list@),
        ("sourceResources.rdCardsDatabase"@, c.source_resources.rd_cards_database@),
        ("sourceResources.rdForbiddenList"@, c.source_resources.rd_forbidden_list@),
        ("publishedDatasets.ot"@, c.published_datasets.ot@),
        ("publishedDatasets.rd"@, c.published_datasets.rd@),
        ("cardImageBaseUrl"@, c.card_image_base_url@),
    ]
}

/// The configured URL of an upstream resource.
pub open spec fn source_url_of(c: Endpoints, resource: SourceResource) -> Seq<char> {
    match resource {
        SourceResource::OtCardsDatabase => c.source_resources.ot_cards_database@,
        SourceResource::OtForbiddenList => c.source_resources.ot_forbidden_list@,
        SourceResource::RdCardsDatabase => c.source_resources.rd_cards_database@,
        SourceResource::RdForbiddenList => c.source_resources.rd_forbidden_list@,
    }
}

/// The configured URL of an environment's published dataset.
pub open spec fn published_dataset_url_of(c: Endpoints, environment: Environment) -> Seq<char> {
    match environment {
        Environment::Ot => c.published_datasets.ot@,
        Environment::Rd => c.published_datasets.rd@,
    }
}

impl Endpoints {
    /// The URL of an upstream resource.
    pub fn source_url(&self, resource: SourceResource) -> (res: &str)
        ensures
            res@ == source_url_of(*self, resource),
    {
        match resource {
            SourceResource::OtCardsDatabase => self.source_resources.ot_cards_database.as_str(),
            SourceResource::OtForbiddenList => self.source_resources.ot_forbidden_list.as_str(),
            SourceResource::RdCardsDatabase => self.source_resources.rd_cards_database.as_str(),
            SourceResource::RdForbiddenList => self.source_resources.rd_forbidden_list.as_str(),
        }
    }

    /// The URL of an environment's published dataset.
    pub fn published_dataset_url(&self, environment: Environment) -> (res: &str)
        ensures
            res@ == published_dataset_url_of(*self, environment),
    {
        match environment {
            Environment::Ot => self.published_datasets.ot.as_str(),
            Environment::Rd => self.published_datasets.rd.as_str(),
        }
    }

    /// The base URL of the card images.
    pub fn card_image_base_url(&self) -> (res: &str)
        ensures
            res@ == self.card_image_base_url@,
    {
        self.card_image_base_url.as_str()
    }

    /// Checks every configured URL, in order.
    pub fn validate(&self) -> (res: Result<(), UrlFieldError>)
        ensures
            match first_bad_field(endpoint_fields(*self)) {
                None => res is Ok,
                Some((field, value, problem)) => res matches Err(e) && e.config@
                    == "endpoint config"@ && e.field@ == field && e.value@ == value && e.problem
                    == problem,
            },
    {
        let fields = [
            ("sourceResources.otCardsDatabase", self.source_resources.ot_cards_database.as_str()),
            ("sourceResources.otForbiddenList", self.source_resources.ot_forbidden_list.as_str()),
            ("sourceResources.rdCardsDatabase", self.source_resources.rd_cards_database.as_str()),
            ("sourceResources.rdForbiddenList", self.source_resources.rd_forbidden_list.as_str()),
            ("publishedDatasets.ot", self.published_datasets.ot.as_str()),
            ("publishedDatasets.rd", self.published_datasets.rd.as_str()),
            ("cardImageBaseUrl", self.card_image_base_url.as_str()),
        ];
        proof {
            assert(pairs_view(fields@) =~= endpoint_fields(*self));
        }
        check_fields("endpoint config", &fields)
    }
}

/// The endpoint configuration once every URL in it has been checked: the
/// configuration itself, or the first URL it refuses.
pub fn endpoints(config: Endpoints) -> (res: Result<Endpoints, UrlFieldError>)
    ensures
        match first_bad_field(endpoint_fields(config)) {
            None => res matches Ok(c) && c == config,
            Some((field, value, problem)) => res matches Err(e) && e.config@ == "endpoint config"@
                && e.field@ == field && e.value@ == value && e.problem == problem,
        },
{
    match config.validate() {
        Ok(()) => Ok(config),
        Err(e) => Err(e),
    }
}

/// Checks one URL of the endpoint configuration.
pub fn validate_url(field: &str, value: &str) -> (res: Result<(), UrlFieldError>)
    ensures
        match url_problem(value@) {
            None => res is Ok,
            Some(problem) => res matches Err(e) && e.config@ == "endpoint config"@ && e.field@
                == field@ && e.value@ == value@ && e.problem == problem,
        },
{
    let fields = [(field, value)];
    proof {
        assert(pairs_view(fields@).len() == 1);
        assert(pairs_view(fields@)[0] == (field@, value@));
        assert(pairs_view(fields@).drop_first() =~= Seq::<(Seq<char>, Seq<char>)>::empty());
        assert(first_bad_field(pairs_view(fields@).drop_first()) is None);
    }
    check_fields("endpoint config", &fields)
}

} // verus!
