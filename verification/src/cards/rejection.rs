//! The warnings for card rows that are skipped, and why.
use vstd::prelude::*;

use crate::cards::mappings::{OtFieldMappings, RdFieldMappings};
use crate::cards::{labels_view, CardRejection};
use crate::chars::{chars_of, debug_str, debug_text, push_chars, push_str, string_from_chars};
use crate::report::joined;
use crate::diagnostics::{Diagnostic, DiagnosticView, Severity};
use crate::environment::{environment_label, Environment};
use crate::formatting::{
    alternate_hex, debug_option, decimal, push_alternate_hex, push_debug_option, signed_decimal,
    signed_decimal_chars,
};

verus! {

/// How `{:?}` writes a list of strings: each string as `{:?}` writes it,
/// separated by `, `, between square brackets.
pub open spec fn debug_list(items: Seq<Seq<char>>) -> Seq<char> {
    debug_list_text(Seq::new(items.len(), |i: int| debug_str(items[i])))
}

/// A list written from the `{:?}` texts of its items: the texts separated
/// by `, `, between square brackets.
pub open spec fn debug_list_text(quoted: Seq<Seq<char>>) -> Seq<char> {
    "["@ + joined(quoted, ", "@) + "]"@
}

/// Writes a list from the `{:?}` texts of its items.
pub fn debug_list_of(quoted: &[String]) -> (res: String)
    ensures
        res@ == debug_list_text(labels_view(quoted@)),
{
    let ghost lv = labels_view(quoted@);
    let mut out = chars_of("[");
    let ghost open = out@;
    let mut i: usize = 0;
    proof {
        assert(lv.take(0) =~= Seq::<Seq<char>>::empty());
        assert(out@ =~= open + joined(lv.take(0), ", "@));
    }
    while i < quoted.len()
        invariant
            0 <= i <= quoted@.len(),
            lv == labels_view(quoted@),
            open == "["@,
            out@ == open + joined(lv.take(i as int), ", "@),
        decreases quoted@.len() - i,
    {
        if i > 0 {
            push_str(&mut out, ", ");
        }
        push_str(&mut out, quoted[i].as_str());
        proof {
            assert(lv.take(i + 1).drop_last() =~= lv.take(i as int));
            assert(lv.take(i + 1).last() == quoted@[i as int]@);
            if i == 0 {
                assert(lv.take(1).len() == 1);
            }
        }
        i += 1;
    }
    push_str(&mut out, "]");
    proof {
        assert(lv.take(lv.len() as int) =~= lv);
    }
    string_from_chars(&out)
}

/// A card's type names as `{:?}` writes them.
fn debug_labels(labels: &[String]) -> (res: String)
    ensures
        res@ == debug_list(labels_view(labels@)),
{
    let mut quoted: Vec<String> = Vec::new();
    let mut i: usize = 0;
    while i < labels.len()
        invariant
            0 <= i <= labels@.len(),
            quoted@.len() == i,
            forall|k: int| 0 <= k < i ==> #[trigger] quoted@[k]@ == debug_str(labels@[k]@),
        decreases labels@.len() - i,
    {
        quoted.push(debug_text(labels[i].as_str()));
        i += 1;
    }
    let res = debug_list_of(quoted.as_slice());
    proof {
        assert(labels_view(quoted@) =~= Seq::new(
            labels_view(labels@).len(),
            |k: int| debug_str(labels_view(labels@)[k]),
        ));
    }
    res
}

/// The warning for a skipped card: its environment, ID, name when it has
/// one, and the reason.
pub open spec fn card_skipped_view(environment: Environment, id: i64, name: Option<Seq<char>>, reason: Seq<char>) -> DiagnosticView {
    DiagnosticView {
        severity: Severity::Warning,
        code: "card.skipped"@,
        title: "Card was skipped"@,
        context: seq![("Environment"@, environment_label(environment)), ("Card ID"@, signed_decimal(id as int))]
            + match name {
            Some(n) => seq![("Name"@, n)],
            None => seq![],
        },
        reason: Some(reason),
        suggestion: None,
    }
}

pub open spec fn opt_name_view(o: Option<&str>) -> Option<Seq<char>> {
    match o {
        Some(s) => Some(s@),
        None => None,
    }
}

/// The warning for a skipped card.
pub fn card_skipped(environment: Environment, id: i64, name: Option<&str>, reason: &str) -> (res: Diagnostic)
    ensures
        res@ == card_skipped_view(environment, id, opt_name_view(name), reason@),
{
    let id_text = string_from_chars(&signed_decimal_chars(id));
    let d = Diagnostic::warning("card.skipped", "Card was skipped").context(
        "Environment",
        environment.label(),
    ).context("Card ID", id_text.as_str()).reason(reason);
    let d = match name {
        Some(n) => d.context("Name", n),
        None => d,
    };
    proof {
        assert(d@.context =~= card_skipped_view(environment, id, opt_name_view(name), reason@).context);
    }
    d
}

/// The warning for a database row that could not be decoded.
pub open spec fn row_skipped_view(environment: Environment, row_number: usize, error: Seq<char>) -> DiagnosticView {
    DiagnosticView {
        severity: Severity::Warning,
        code: "database.row-skipped"@,
        title: "Database row was skipped"@,
        context: seq![("Environment"@, environment_label(environment)), ("Row"@, decimal(row_number as nat))],
        reason: Some("failed to decode SQLite row: "@ + error),
        suggestion: None,
    }
}

/// The warning for a database row that could not be decoded.
pub fn database_row(environment: Environment, row_number: usize, error: &str) -> (res: Diagnostic)
    ensures
        res@ == row_skipped_view(environment, row_number, error@),
{
    let mut row_text: Vec<char> = Vec::new();
    crate::formatting::push_decimal(&mut row_text, row_number);
    let row_string = string_from_chars(&row_text);
    let mut reason = chars_of("failed to decode SQLite row: ");
    push_str(&mut reason, error);
    let reason_string = string_from_chars(&reason);
    let d = Diagnostic::warning("database.row-skipped", "Database row was skipped").context(
        "Environment",
        environment.label(),
    ).context("Row", row_string.as_str()).reason(reason_string.as_str());
    proof {
        assert(d@.context =~= row_skipped_view(environment, row_number, error@).context);
    }
    d
}

/// Why a card was skipped, for the checks both environments make, in the
/// order they are made; the card's types are written as `{:?}` writes
/// them.
pub open spec fn common_reason(r: CardRejection, attribute_code: i64, alias: i64, type_flags: i64, race_code: i64) -> Seq<char> {
    match r {
        CardRejection::NonPositiveId => "ID must be positive"@,
        CardRejection::MissingName => "name is missing from the texts table"@,
        CardRejection::BlankName => "name is empty or whitespace-only"@,
        CardRejection::MissingDescription => "description is missing from the texts table"@,
        CardRejection::UnsupportedAttribute => "unsupported attribute value="@ + signed_decimal(attribute_code as int)
            + " ("@ + alternate_hex(attribute_code) + ")"@,
        CardRejection::NegativeAlias => "alias must be non-negative; alias="@ + signed_decimal(alias as int),
        _ => "unsupported type or race bitmask; type="@ + signed_decimal(type_flags as int) + " ("@ + alternate_hex(
            type_flags,
        ) + ") race="@ + signed_decimal(race_code as int) + " ("@ + alternate_hex(race_code) + ")"@,
    }
}

fn push_common_reason(out: &mut Vec<char>, r: CardRejection, attribute_code: i64, alias: i64, type_flags: i64, race_code: i64)
    ensures
        final(out)@ == old(out)@ + common_reason(r, attribute_code, alias, type_flags, race_code),
{
    let mut piece: Vec<char> = Vec::new();
    match r {
        CardRejection::NonPositiveId => piece = chars_of("ID must be positive"),
        CardRejection::MissingName => piece = chars_of("name is missing from the texts table"),
        CardRejection::BlankName => piece = chars_of("name is empty or whitespace-only"),
        CardRejection::MissingDescription => piece = chars_of("description is missing from the texts table"),
        CardRejection::UnsupportedAttribute => {
            piece = chars_of("unsupported attribute value=");
            push_chars(&mut piece, &signed_decimal_chars(attribute_code));
            push_str(&mut piece, " (");
            push_alternate_hex(&mut piece, attribute_code);
            push_str(&mut piece, ")");
        },
        CardRejection::NegativeAlias => {
            piece = chars_of("alias must be non-negative; alias=");
            push_chars(&mut piece, &signed_decimal_chars(alias));
        },
        _ => {
            piece = chars_of("unsupported type or race bitmask; type=");
            push_chars(&mut piece, &signed_decimal_chars(type_flags));
            push_str(&mut piece, " (");
            push_alternate_hex(&mut piece, type_flags);
            push_str(&mut piece, ") race=");
            push_chars(&mut piece, &signed_decimal_chars(race_code));
            push_str(&mut piece, " (");
            push_alternate_hex(&mut piece, race_code);
            push_str(&mut piece, ")");
        },
    }
    push_chars(out, &piece);
}

/// Whether a rejection comes from a check made before the card's types
/// are known.
pub open spec fn before_types(r: CardRejection) -> bool {
    r is NonPositiveId || r is MissingName || r is BlankName || r is MissingDescription
        || r is UnsupportedAttribute || r is NegativeAlias || r is UnsupportedType
}

/// Why an OT card was skipped.
pub open spec fn ot_reason(r: CardRejection, row: crate::cards::ot::card::DatabaseRow, types: Seq<Seq<char>>) -> Seq<char> {
    ot_reason_text(r, row, debug_list(types))
}

/// Why an OT card was skipped, with its types written as `t`.
pub open spec fn ot_reason_text(r: CardRejection, row: crate::cards::ot::card::DatabaseRow, t: Seq<char>) -> Seq<char> {
    if before_types(r) {
        common_reason(r, row.attribute_code, row.alias, row.type_flags, row.race_code)
    } else {
        match r {
            CardRejection::InvalidDescription => "description format is invalid for card_type="@ + t,
            CardRejection::InvalidPendulumDescription => "pendulum description format is invalid for card_type="@ + t,
            CardRejection::InvalidAtk => "invalid ATK value="@ + signed_decimal(row.atk as int) + " for card_type="@ + t,
            CardRejection::InvalidDef => "invalid DEF value="@ + signed_decimal(row.defense as int) + " for card_type="@ + t,
            CardRejection::InvalidLevel => "invalid packed level value="@ + signed_decimal(row.level as int) + " for card_type="@ + t,
            CardRejection::InvalidRank => "invalid packed rank value="@ + signed_decimal(row.level as int) + " for card_type="@ + t,
            CardRejection::InvalidPendulumScale => "invalid packed pendulum scale value="@ + signed_decimal(row.level as int)
                + " for card_type="@ + t,
            CardRejection::InvalidLinkValue => "invalid packed link value="@ + signed_decimal(row.level as int)
                + " for card_type="@ + t,
            _ => "invalid link marker bitmask="@ + signed_decimal(row.defense as int) + " ("@ + alternate_hex(row.defense)
                + ") for card_type="@ + t,
        }
    }
}

/// The types that an OT row maps to, or none.
pub open spec fn ot_types_or_none(m: OtFieldMappings, row: crate::cards::ot::card::DatabaseRow) -> Seq<Seq<char>> {
    match crate::cards::ot::classification::ot_card_types(m, row.type_flags, row.race_code) {
        Some(t) => t,
        None => seq![],
    }
}

/// The warning for an OT row that was skipped for `rejection`: the card's
/// ID, its name unless the name is missing or the ID was refused before
/// it was read without one, and the reason.
pub fn ot_rejection_warning(row: &crate::cards::ot::card::DatabaseRow, rejection: CardRejection, mappings: &OtFieldMappings) -> (res: Diagnostic)
    ensures
        res@ == card_skipped_view(
            Environment::Ot,
            row.id,
            if rejection is MissingName {
                None
            } else {
                crate::cards::opt_string_view(row.name)
            },
            ot_reason(rejection, *row, ot_types_or_none(*mappings, *row)),
        ),
{
    let type_text = if before_types_exec(rejection) {
        String::new()
    } else {
        let types = match crate::cards::ot::classification::map_card_types(mappings, row.type_flags, row.race_code) {
            Some(t) => t,
            None => Vec::new(),
        };
        proof {
            assert(labels_view(types@) == ot_types_or_none(*mappings, *row)) by {
                if crate::cards::ot::classification::ot_card_types(*mappings, row.type_flags, row.race_code) is None {
                    assert(labels_view(types@) =~= Seq::<Seq<char>>::empty());
                }
            }
        }
        debug_labels(types.as_slice())
    };
    let reason_text = ot_rejection_reason(row, rejection, type_text.as_str());
    let name: Option<&str> = match rejection {
        CardRejection::MissingName => None,
        _ => match &row.name {
            Some(n) => Some(n.as_str()),
            None => None,
        },
    };
    card_skipped(Environment::Ot, row.id, name, reason_text.as_str())
}

/// Why an OT row was skipped for `rejection`, with the card's types written
/// as `type_text` (how `{:?}` writes them).
pub fn ot_rejection_reason(row: &crate::cards::ot::card::DatabaseRow, rejection: CardRejection, type_text: &str) -> (res: String)
    ensures
        res@ == ot_reason_text(rejection, *row, type_text@),
{
    let mut reason: Vec<char> = Vec::new();
    if before_types_exec(rejection) {
        push_common_reason(&mut reason, rejection, row.attribute_code, row.alias, row.type_flags, row.race_code);
    } else {
        match rejection {
            CardRejection::InvalidDescription => reason = chars_of("description format is invalid for card_type="),
            CardRejection::InvalidPendulumDescription => reason = chars_of("pendulum description format is invalid for card_type="),
            CardRejection::InvalidAtk => {
                reason = chars_of("invalid ATK value=");
                push_chars(&mut reason, &signed_decimal_chars(row.atk));
                push_str(&mut reason, " for card_type=");
            },
            CardRejection::InvalidDef => {
                reason = chars_of("invalid DEF value=");
                push_chars(&mut reason, &signed_decimal_chars(row.defense));
                push_str(&mut reason, " for card_type=");
            },
            CardRejection::InvalidLevel => {
                reason = chars_of("invalid packed level value=");
                push_chars(&mut reason, &signed_decimal_chars(row.level));
                push_str(&mut reason, " for card_type=");
            },
            CardRejection::InvalidRank => {
                reason = chars_of("invalid packed rank value=");
                push_chars(&mut reason, &signed_decimal_chars(row.level));
                push_str(&mut reason, " for card_type=");
            },
            CardRejection::InvalidPendulumScale => {
                reason = chars_of("invalid packed pendulum scale value=");
                push_chars(&mut reason, &signed_decimal_chars(row.level));
                push_str(&mut reason, " for card_type=");
            },
            CardRejection::InvalidLinkValue => {
                reason = chars_of("invalid packed link value=");
                push_chars(&mut reason, &signed_decimal_chars(row.level));
                push_str(&mut reason, " for card_type=");
            },
            _ => {
                reason = chars_of("invalid link marker bitmask=");
                push_chars(&mut reason, &signed_decimal_chars(row.defense));
                push_str(&mut reason, " (");
                push_alternate_hex(&mut reason, row.defense);
                push_str(&mut reason, ") for card_type=");
            },
        }
        push_str(&mut reason, type_text);
    }
    string_from_chars(&reason)
}

fn before_types_exec(r: CardRejection) -> (res: bool)
    ensures
        res == before_types(r),
{
    match r {
        CardRejection::NonPositiveId | CardRejection::MissingName | CardRejection::BlankName
        | CardRejection::MissingDescription | CardRejection::UnsupportedAttribute
        | CardRejection::NegativeAlias | CardRejection::UnsupportedType => true,
        _ => false,
    }
}

/// Why an RD card was skipped; `maximum` is the card's maximum position
/// when that was read.
pub open spec fn rd_reason(r: CardRejection, row: crate::cards::rd::card::DatabaseRow, types: Seq<Seq<char>>, maximum: Option<i64>) -> Seq<char> {
    rd_reason_text(r, row, debug_list(types), maximum)
}

/// Why an RD card was skipped, with its types written as `t`.
pub open spec fn rd_reason_text(r: CardRejection, row: crate::cards::rd::card::DatabaseRow, t: Seq<char>, maximum: Option<i64>) -> Seq<char> {
    if before_types(r) {
        common_reason(r, row.attribute_code, row.alias, row.type_flags, row.race_code)
    } else if r is InvalidMaximumAtk {
        "maximum ATK could not be parsed; maximum_position="@ + debug_option(maximum)
    } else {
        "maximum position could not be normalized for card_type="@ + t
    }
}

/// The types that an RD row maps to, or none.
pub open spec fn rd_types_or_none(m: RdFieldMappings, row: crate::cards::rd::card::DatabaseRow) -> Seq<Seq<char>> {
    match crate::cards::rd::classification::rd_card_types(m, row.type_flags, row.race_code) {
        Some(t) => t,
        None => seq![],
    }
}

/// The maximum position that an RD row reads as, if any.
pub open spec fn rd_maximum_or_none(m: RdFieldMappings, row: crate::cards::rd::card::DatabaseRow) -> Option<i64> {
    match row.name {
        Some(name) => match row.description {
            Some(d) => match crate::cards::rd::normalization::rd_maximum(
                m.maximum_position_markers@,
                name@,
                rd_types_or_none(m, row),
                d@,
            ) {
                Some(p) => p,
                None => None,
            },
            None => None,
        },
        None => None,
    }
}

/// The warning for an RD row that was skipped for `rejection`.
pub fn rd_rejection_warning(row: &crate::cards::rd::card::DatabaseRow, rejection: CardRejection, mappings: &RdFieldMappings) -> (res: Diagnostic)
    ensures
        res@ == card_skipped_view(
            Environment::Rd,
            row.id,
            if rejection is MissingName {
                None
            } else {
                crate::cards::opt_string_view(row.name)
            },
            rd_reason(
                rejection,
                *row,
                rd_types_or_none(*mappings, *row),
                rd_maximum_or_none(*mappings, *row),
            ),
        ),
{
    let mut type_text = String::new();
    let mut maximum: Option<i64> = None;
    if !before_types_exec(rejection) {
        let types = match crate::cards::rd::classification::map_card_types(mappings, row.type_flags, row.race_code) {
            Some(t) => t,
            None => Vec::new(),
        };
        proof {
            assert(labels_view(types@) == rd_types_or_none(*mappings, *row)) by {
                if crate::cards::rd::classification::rd_card_types(*mappings, row.type_flags, row.race_code) is None {
                    assert(labels_view(types@) =~= Seq::<Seq<char>>::empty());
                }
            }
        }
        match rejection {
            CardRejection::InvalidMaximumAtk => {
                maximum = match (&row.name, &row.description) {
                    (Some(name), Some(d)) => match crate::cards::rd::normalization::normalize_maximum(
                        name.as_str(),
                        types.as_slice(),
                        d.as_str(),
                        mappings.maximum_position_markers.as_slice(),
                    ) {
                        Some(p) => p,
                        None => None,
                    },
                    _ => None,
                };
            },
            _ => {
                type_text = debug_labels(types.as_slice());
            },
        }
    }
    let reason_text = rd_rejection_reason(row, rejection, type_text.as_str(), maximum);
    let name: Option<&str> = match rejection {
        CardRejection::MissingName => None,
        _ => match &row.name {
            Some(n) => Some(n.as_str()),
            None => None,
        },
    };
    card_skipped(Environment::Rd, row.id, name, reason_text.as_str())
}

/// Why an RD row was skipped for `rejection`, with the card's types written
/// as `type_text` (how `{:?}` writes them) and the maximum position that
/// its description gave, if any.
pub fn rd_rejection_reason(
    row: &crate::cards::rd::card::DatabaseRow,
    rejection: CardRejection,
    type_text: &str,
    maximum: Option<i64>,
) -> (res: String)
    ensures
        res@ == rd_reason_text(rejection, *row, type_text@, maximum),
{
    let mut reason: Vec<char> = Vec::new();
    if before_types_exec(rejection) {
        push_common_reason(&mut reason, rejection, row.attribute_code, row.alias, row.type_flags, row.race_code);
    } else {
        match rejection {
            CardRejection::InvalidMaximumAtk => {
                reason = chars_of("maximum ATK could not be parsed; maximum_position=");
                push_debug_option(&mut reason, maximum);
            },
            _ => {
                reason = chars_of("maximum position could not be normalized for card_type=");
                push_str(&mut reason, type_text);
            },
        }
    }
    string_from_chars(&reason)
}

/// The cards kept so far and how many were skipped.
#[derive(Debug)]
pub struct CardCollection<T> {
    pub cards: Vec<T>,
    pub skipped: usize,
}

impl<T> CardCollection<T> {
    /// No cards yet.
    pub fn new() -> (res: Self)
        ensures
            res.cards@ == Seq::<T>::empty(),
            res.skipped == 0,
    {
        CardCollection { cards: Vec::new(), skipped: 0 }
    }

    /// Keeps a card.
    pub fn keep(&mut self, card: T)
        ensures
            final(self).cards@ == old(self).cards@.push(card),
            final(self).skipped == old(self).skipped,
    {
        self.cards.push(card);
    }

    /// Counts a skipped card.
    pub fn skip(&mut self)
        requires
            old(self).skipped < usize::MAX,
        ensures
            final(self).cards@ == old(self).cards@,
            final(self).skipped == old(self).skipped + 1,
    {
        self.skipped = self.skipped + 1;
    }
}

} // verus!
