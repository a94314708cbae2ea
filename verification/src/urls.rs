//! The configured download URLs and the rules that every configured URL
//! must meet.
use vstd::prelude::*;

use crate::chars::{
    chars_eq, chars_of, push_str, starts_with, starts_with_exec, string_from_chars, trim, trim_exec,
};

verus! {

/// Why a configured URL was refused.
#[derive(Debug, Clone, Copy, PartialEq, Eq, Structural)]
pub enum UrlProblem {
    /// Nothing but whitespace.
    Empty,
    /// Leading or trailing whitespace.
    SurroundingWhitespace,
    /// A scheme other than `http://` or `https://`.
    UnsupportedScheme,
}

/// The first rule that `value` breaks, if any: it must not be blank, must
/// not carry surrounding whitespace, and must start with `http://` or
/// `https://`.
pub open spec fn url_problem(value: Seq<char>) -> Option<UrlProblem> {
    let t = trim(value);
    if t.len() == 0 {
        Some(UrlProblem::Empty)
    } else if t != value {
        Some(UrlProblem::SurroundingWhitespace)
    } else if !starts_with(t, "http://"@) && !starts_with(t, "https://"@) {
        Some(UrlProblem::UnsupportedScheme)
    } else {
        None
    }
}

/// Checks one configured URL.
pub fn check_url(value: &str) -> (res: Result<(), UrlProblem>)
    ensures
        res == (match url_problem(value@) {
            Some(p) => Err(p),
            None => Ok(()),
        }),
{
    let v = chars_of(value);
    let t = trim_exec(&v);
    if t.len() == 0 {
        return Err(UrlProblem::Empty);
    }
    if !chars_eq(&t, &v) {
        return Err(UrlProblem::SurroundingWhitespace);
    }
    let http = chars_of("http://");
    let https = chars_of("https://");
    if !starts_with_exec(&t, &http) && !starts_with_exec(&t, &https) {
        return Err(UrlProblem::UnsupportedScheme);
    }
    Ok(())
}

/// A refused URL of a configuration file: which file, which field, its
/// value and the rule it breaks.
#[derive(Debug)]
pub struct UrlFieldError {
    pub config: &'static str,
    pub field: String,
    pub value: String,
    pub problem: UrlProblem,
}

/// The message of a refused URL.
pub open spec fn url_error_message(config: Seq<char>, field: Seq<char>, value: Seq<char>, problem: UrlProblem) -> Seq<char> {
    config + " field "@ + field + match problem {
        UrlProblem::Empty => " must not be empty"@,
        UrlProblem::SurroundingWhitespace => " must not contain leading or trailing whitespace"@,
        UrlProblem::UnsupportedScheme => " must use http or https: "@ + value,
    }
}

impl UrlFieldError {
    /// The error's message, as `URL config field imageBaseUrl must not be
    /// empty`.
    pub fn message(&self) -> (res: String)
        ensures
            res@ == url_error_message(self.config@, self.field@, self.value@, self.problem),
    {
        let mut out = chars_of(self.config);
        push_str(&mut out, " field ");
        push_str(&mut out, self.field.as_str());
        match self.problem {
            UrlProblem::Empty => push_str(&mut out, " must not be empty"),
            UrlProblem::SurroundingWhitespace => push_str(
                &mut out,
                " must not contain leading or trailing whitespace",
            ),
            UrlProblem::UnsupportedScheme => {
                push_str(&mut out, " must use http or https: ");
                push_str(&mut out, self.value.as_str());
            },
        }
        string_from_chars(&out)
    }
}

/// The first field, in order, whose value breaks a rule, with its value
/// and the rule.
pub open spec fn first_bad_field(fields: Seq<(Seq<char>, Seq<char>)>) -> Option<(Seq<char>, Seq<char>, UrlProblem)>
    decreases fields.len(),
{
    if fields.len() == 0 {
        None
    } else {
        match url_problem(fields[0].1) {
            Some(p) => Some((fields[0].0, fields[0].1, p)),
            None => first_bad_field(fields.drop_first()),
        }
    }
}

/// When no field breaks a rule, every field keeps every rule.
pub proof fn lemma_no_bad_field(fields: Seq<(Seq<char>, Seq<char>)>)
    requires
        first_bad_field(fields) is None,
    ensures
        forall|i: int| 0 <= i < fields.len() ==> url_problem(#[trigger] fields[i].1) is None,
    decreases fields.len(),
{
    if fields.len() > 0 {
        lemma_no_bad_field(fields.drop_first());
        assert forall|i: int| 0 <= i < fields.len() implies url_problem(#[trigger] fields[i].1) is None by {
            if i > 0 {
                assert(fields[i] == fields.drop_first()[i - 1]);
            }
        }
    }
}

/// Every URL of an accepted URL configuration is an `http://` or
/// `https://` URL without surrounding whitespace.
pub proof fn lemma_accepted_urls_are_web_urls(config: UrlConfig)
    requires
        first_bad_field(url_config_fields(config)) is None,
    ensures
        forall|i: int| 0 <= i < url_config_fields(config).len() ==> {
            let v = #[trigger] url_config_fields(config)[i].1;
            &&& trim(v) == v
            &&& (starts_with(v, "http://"@) || starts_with(v, "https://"@))
        },
{
    lemma_no_bad_field(url_config_fields(config));
}

pub open spec fn pairs_view(fields: Seq<(&str, &str)>) -> Seq<(Seq<char>, Seq<char>)> {
    Seq::new(fields.len(), |i: int| (fields[i].0@, fields[i].1@))
}

/// Checks the named URLs in order; the first one that breaks a rule is
/// refused.
pub fn check_fields(config: &'static str, fields: &[(&str, &str)]) -> (res: Result<(), UrlFieldError>)
    ensures
        match first_bad_field(pairs_view(fields@)) {
            None => res is Ok,
            Some((field, value, problem)) => res matches Err(e) && e.config == config && e.field@ == field
                && e.value@ == value && e.problem == problem,
        },
{
    let mut i: usize = 0;
    proof {
        assert(pairs_view(fields@).skip(0) =~= pairs_view(fields@));
    }
    while i < fields.len()
        invariant
            0 <= i <= fields@.len(),
            first_bad_field(pairs_view(fields@)) == first_bad_field(pairs_view(fields@).skip(i as int)),
        decreases fields@.len() - i,
    {
        proof {
            assert(pairs_view(fields@).skip(i as int).drop_first() =~= pairs_view(fields@).skip(i + 1));
        }
        let (field, value) = fields[i];
        match check_url(value) {
            Err(problem) => {
                return Err(UrlFieldError {
                    config,
                    field: string_from_chars(&chars_of(field)),
                    value: string_from_chars(&chars_of(value)),
                    problem,
                });
            },
            Ok(()) => {},
        }
        i += 1;
    }
    proof {
        assert(pairs_view(fields@).skip(i as int) =~= Seq::<(Seq<char>, Seq<char>)>::empty());
    }
    Ok(())
}

/// Checks one URL of the URL configuration.
pub fn validate_url(field: &str, value: &str) -> (res: Result<(), UrlFieldError>)
    ensures
        match url_problem(value@) {
            None => res is Ok,
            Some(problem) => res matches Err(e) && e.config@ == "URL config"@ && e.field@ == field@
                && e.value@ == value@ && e.problem == problem,
        },
{
    let fields = [(field, value)];
    proof {
        assert(pairs_view(fields@).len() == 1);
        assert(pairs_view(fields@)[0] == (field@, value@));
        assert(pairs_view(fields@).drop_first() =~= Seq::<(Seq<char>, Seq<char>)>::empty());
        assert(first_bad_field(pairs_view(fields@).drop_first()) is None);
    }
    check_fields("URL config", &fields)
}

/// Where the upstream resources are downloaded from.
#[derive(Debug)]
pub struct ResourceUrls {
    pub ot_cards_database: String,
    pub ot_forbidden_list: String,
    pub rd_cards_database: String,
    pub rd_forbidden_list: String,
}

/// Where the published datasets of each environment are.
#[derive(Debug)]
pub struct LatestJsonUrls {
    pub ot: String,
    pub rd: String,
}

/// The URL configuration.
#[derive(Debug)]
pub struct UrlConfig {
    pub resources: ResourceUrls,
    pub latest_json: LatestJsonUrls,
    pub image_base_url: String,
}

/// An upstream resource.
#[derive(Debug, Clone, Copy, PartialEq, Eq, Structural)]
pub enum ResourceUrlKey {
    OtCardsDatabase,
    OtForbiddenList,
    RdCardsDatabase,
    RdForbiddenList,
}

/// The configured URLs with their field names, in the order they are
/// checked.
pub open spec fn url_config_fields(c: UrlConfig) -> Seq<(Seq<char>, Seq<char>)> {
    seq![
        ("resources.otCardsDatabase"@, c.resources.ot_cards_database@),
        ("resources.otForbiddenList"@, c.resources.ot_forbidden_list@),
        ("resources.rdCardsDatabase"@, c.resources.rd_cards_database@),
        ("resources.rdForbiddenList"@, c.resources.rd_forbidden_list@),
        ("latestJson.ot"@, c.latest_json.ot@),
        ("latestJson.rd"@, c.latest_json.rd@),
        ("imageBaseUrl"@, c.image_base_url@),
    ]
}

/// The configured URL of a resource.
pub open spec fn resource_url_of(c: UrlConfig, key: ResourceUrlKey) -> Seq<char> {
    match key {
        ResourceUrlKey::OtCardsDatabase => c.resources.ot_cards_database@,
        ResourceUrlKey::OtForbiddenList => c.resources.ot_forbidden_list@,
        ResourceUrlKey::RdCardsDatabase => c.resources.rd_cards_database@,
        ResourceUrlKey::RdForbiddenList => c.resources.rd_forbidden_list@,
    }
}

impl UrlConfig {
    /// The URL of an upstream resource.
    pub fn resource_url(&self, key: ResourceUrlKey) -> (res: &str)
        ensures
            res@ == resource_url_of(*self, key),
    {
        match key {
            ResourceUrlKey::OtCardsDatabase => self.resources.ot_cards_database.as_str(),
            ResourceUrlKey::OtForbiddenList => self.resources.ot_forbidden_list.as_str(),
            ResourceUrlKey::RdCardsDatabase => self.resources.rd_cards_database.as_str(),
            ResourceUrlKey::RdForbiddenList => self.resources.rd_forbidden_list.as_str(),
        }
    }

    /// The URL of the published dataset of the environment labelled
    /// `OT` or `RD`; any other label is refused.
    pub fn latest_json_url(&self, label: &str) -> (res: Result<&str, String>)
        ensures
            label@ == "OT"@ ==> (res matches Ok(u) && u@ == self.latest_json.ot@),
            label@ == "RD"@ ==> (res matches Ok(u) && u@ == self.latest_json.rd@),
            label@ != "OT"@ && label@ != "RD"@ ==> (res matches Err(m) && m@
                == "unsupported environment label "@ + label@),
    {
        proof {
            reveal_strlit("OT");
            reveal_strlit("RD");
            assert("OT"@[0] != "RD"@[0]);
        }
        let l = chars_of(label);
        let ot = chars_of("OT");
        let rd = chars_of("RD");
        if chars_eq(&l, &ot) {
            Ok(self.latest_json.ot.as_str())
        } else if chars_eq(&l, &rd) {
            Ok(self.latest_json.rd.as_str())
        } else {
            let mut out = chars_of("unsupported environment label ");
            push_str(&mut out, label);
            Err(string_from_chars(&out))
        }
    }

    /// The base URL of the card images.
    pub fn image_base_url(&self) -> (res: &str)
        ensures
            res@ == self.image_base_url@,
    {
        self.image_base_url.as_str()
    }

    /// Checks every configured URL, in order.
    pub fn validate(&self) -> (res: Result<(), UrlFieldError>)
        ensures
            match first_bad_field(url_config_fields(*self)) {
                None => res is Ok,
                Some((field, value, problem)) => res matches Err(e) && e.config@ == "URL config"@
                    && e.field@ == field && e.value@ == value && e.problem == problem,
            },
    {
        let fields = [
            ("resources.otCardsDatabase", self.resources.ot_cards_database.as_str()),
            ("resources.otForbiddenList", self.resources.ot_forbidden_list.as_str()),
            ("resources.rdCardsDatabase", self.resources.rd_cards_database.as_str()),
            ("resources.rdForbiddenList", self.resources.rd_forbidden_list.as_str()),
            ("latestJson.ot", self.latest_json.ot.as_str()),
            ("latestJson.rd", self.latest_json.rd.as_str()),
            ("imageBaseUrl", self.image_base_url.as_str()),
        ];
        proof {
            assert(pairs_view(fields@) =~= url_config_fields(*self));
        }
        check_fields("URL config", &fields)
    }
}

/// The URL configuration once every URL in it has been checked: the
/// configuration itself, or the first URL it refuses.
pub fn urls(config: UrlConfig) -> (res: Result<UrlConfig, UrlFieldError>)
    ensures
        match first_bad_field(url_config_fields(config)) {
            None => res matches Ok(c) && c == config,
            Some((field, value, problem)) => res matches Err(e) && e.config@ == "URL config"@
                && e.field@ == field && e.value@ == value && e.problem == problem,
        },
{
    match config.validate() {
        Ok(()) => Ok(config),
        Err(e) => Err(e),
    }
}

} // verus!
