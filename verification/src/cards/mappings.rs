//! The field mappings that turn raw database codes into output values.
use vstd::prelude::*;

use crate::chars::{
    chars_of, parse_i64, parse_i64_exec, parse_i64_radix, parse_i64_radix_exec, push_chars, push_str,
    debug_str, debug_text, starts_with, starts_with_exec, string_from_chars, sub_chars, trim, trim_exec,
};

verus! {

/// A raw attribute code and the attribute value it is written as.
#[derive(Debug)]
pub struct AttributeCodeMapping {
    pub raw_code: i64,
    pub output_value: i64,
}

/// A raw race code and the race name it is written as.
#[derive(Debug)]
pub struct RaceCodeMapping {
    pub raw_code: i64,
    pub output_name: String,
}

/// A type bit and the type name it is written as.
#[derive(Debug)]
pub struct TypeFlag {
    pub mask: i64,
    pub output_name: String,
}

/// A link-marker bit and the marker position it is written as.
#[derive(Debug)]
pub struct LinkMarkerFlag {
    pub mask: i64,
    pub output_position: i64,
}

/// A maximum position and the name markers that announce it.
#[derive(Debug)]
pub struct MaximumPositionMapping {
    pub position: i64,
    pub markers: Vec<String>,
}

/// The OT field mappings.
#[derive(Debug)]
pub struct OtFieldMappings {
    pub attribute_codes: Vec<AttributeCodeMapping>,
    pub primary_type_flags: Vec<TypeFlag>,
    pub subtype_flags: Vec<TypeFlag>,
    pub race_codes: Vec<RaceCodeMapping>,
    pub link_marker_flags: Vec<LinkMarkerFlag>,
    pub inferred_monster_type_mask: i64,
}

/// The RD field mappings.
#[derive(Debug)]
pub struct RdFieldMappings {
    pub attribute_codes: Vec<AttributeCodeMapping>,
    pub legend_type_mask: i64,
    pub fusion_type_mask: i64,
    pub ritual_type_mask: i64,
    pub primary_type_flags: Vec<TypeFlag>,
    pub subtype_flags: Vec<TypeFlag>,
    pub race_codes: Vec<RaceCodeMapping>,
    pub maximum_position_markers: Vec<MaximumPositionMapping>,
}

/// The attribute value of the first entry for `code`.
pub open spec fn attribute_value(entries: Seq<AttributeCodeMapping>, code: i64) -> Option<i64>
    decreases entries.len(),
{
    if entries.len() == 0 {
        None
    } else if entries[0].raw_code == code {
        Some(entries[0].output_value)
    } else {
        attribute_value(entries.drop_first(), code)
    }
}

/// The race name of the first entry for `code`.
pub open spec fn race_name(entries: Seq<RaceCodeMapping>, code: i64) -> Option<Seq<char>>
    decreases entries.len(),
{
    if entries.len() == 0 {
        None
    } else if entries[0].raw_code == code {
        Some(entries[0].output_name@)
    } else {
        race_name(entries.drop_first(), code)
    }
}

/// The attribute value for a raw attribute code.
pub fn map_attribute_value(entries: &[AttributeCodeMapping], raw_code: i64) -> (res: Option<i64>)
    ensures
        res == attribute_value(entries@, raw_code),
{
    let mut i: usize = 0;
    proof {
        assert(entries@.skip(0) =~= entries@);
    }
    while i < entries.len()
        invariant
            0 <= i <= entries@.len(),
            attribute_value(entries@, raw_code) == attribute_value(entries@.skip(i as int), raw_code),
        decreases entries@.len() - i,
    {
        proof {
            assert(entries@.skip(i as int).drop_first() =~= entries@.skip(i + 1));
        }
        if entries[i].raw_code == raw_code {
            return Some(entries[i].output_value);
        }
        i += 1;
    }
    None
}

/// The race name for a raw race code.
pub fn map_race_name(entries: &[RaceCodeMapping], raw_code: i64) -> (res: Option<String>)
    ensures
        match res {
            Some(name) => race_name(entries@, raw_code) == Some(name@),
            None => race_name(entries@, raw_code) is None,
        },
{
    let mut i: usize = 0;
    proof {
        assert(entries@.skip(0) =~= entries@);
    }
    while i < entries.len()
        invariant
            0 <= i <= entries@.len(),
            race_name(entries@, raw_code) == race_name(entries@.skip(i as int), raw_code),
        decreases entries@.len() - i,
    {
        proof {
            assert(entries@.skip(i as int).drop_first() =~= entries@.skip(i + 1));
        }
        if entries[i].raw_code == raw_code {
            return Some(entries[i].output_name.clone());
        }
        i += 1;
    }
    None
}

/// The `Display` text of the `ParseIntError` that `i64::from_str_radix`
/// returns for `digits` in the radix, where they do not read as an `i64`.
pub uninterp spec fn parse_int_error_text(digits: Seq<char>, radix: u32) -> Seq<char>;

/// `i64::from_str_radix`, for digits that do not read as an `i64`: the
/// `Display` text of its error (`str::parse::<i64>` is the same function in
/// radix 10). Claims only that the text is that error's text; which of its
/// reasons (empty, invalid digit, too large, too small) applies is left
/// unsaid. A digit string that reads gives the empty text.
#[verifier::external_body]
fn parse_error_text(digits: &str, radix: u32) -> (res: String)
    requires
        2 <= radix <= 36,
    ensures
        parse_i64_radix(digits@, radix as int) is None ==> res@ == parse_int_error_text(digits@, radix),
{
    match i64::from_str_radix(digits, radix) {
        Ok(_) => String::new(),
        Err(error) => error.to_string(),
    }
}

/// The parts of a trimmed integer literal: whether it is negated, whether
/// it is hexadecimal (`0x` or `0X`), and the text of the number.
pub open spec fn literal_parts(value: Seq<char>) -> (bool, bool, Seq<char>) {
    let v = trim(value);
    let (negative, unsigned) = if starts_with(v, "-"@) {
        (true, v.drop_first())
    } else {
        (false, v)
    };
    if starts_with(unsigned, "0x"@) || starts_with(unsigned, "0X"@) {
        (negative, true, unsigned.skip(2))
    } else {
        (negative, false, unsigned)
    }
}

/// The number that a literal's text reads as, before its own `-`.
pub open spec fn literal_magnitude(value: Seq<char>) -> Option<i64> {
    let (_, hex, number) = literal_parts(value);
    if hex {
        parse_i64_radix(number, 16)
    } else {
        parse_i64(number)
    }
}

/// A literal whose negation would leave the range of `i64`.
pub open spec fn negation_overflows(value: Seq<char>) -> bool {
    literal_parts(value).0 && literal_magnitude(value) == Some(i64::MIN)
}

/// The message for a literal that does not read: its kind of number, the
/// literal as `{:?}` writes it (`quoted`), and why it does not read
/// (`reason`).
pub open spec fn invalid_integer_text(hex: bool, quoted: Seq<char>, reason: Seq<char>) -> Seq<char> {
    (if hex {
        "invalid hexadecimal integer "@
    } else {
        "invalid decimal integer "@
    }) + quoted + ": "@ + reason
}

/// The message for a literal that does not read, from the literal's `{:?}`
/// text and the reason that parsing gave.
pub fn invalid_integer_message(hex: bool, quoted: &str, reason: &str) -> (res: String)
    ensures
        res@ == invalid_integer_text(hex, quoted@, reason@),
{
    let mut message: Vec<char> = Vec::new();
    if hex {
        push_str(&mut message, "invalid hexadecimal integer ");
    } else {
        push_str(&mut message, "invalid decimal integer ");
    }
    push_str(&mut message, quoted);
    push_str(&mut message, ": ");
    push_str(&mut message, reason);
    string_from_chars(&message)
}

/// An integer literal of a mapping config: surrounding whitespace is
/// ignored, a leading `-` negates, and `0x` or `0X` introduces hexadecimal
/// digits; otherwise the number is decimal. A literal that does not read
/// is refused with a message that quotes it and gives the reason.
pub open spec fn integer_literal(value: Seq<char>) -> Result<i64, Seq<char>> {
    let (negative, hex, number) = literal_parts(value);
    if trim(value).len() == 0 {
        Err("empty integer value"@)
    } else {
        match literal_magnitude(value) {
            Some(p) => Ok(if negative { (-p) as i64 } else { p }),
            None => Err(
                invalid_integer_text(
                    hex,
                    debug_str(trim(value)),
                    parse_int_error_text(number, if hex { 16 } else { 10 }),
                ),
            ),
        }
    }
}

/// Whether reading the literal would negate `i64::MIN`, which has no
/// negation in `i64`.
pub fn negation_would_overflow(value: &str) -> (res: bool)
    ensures
        res == negation_overflows(value@),
{
    proof {
        reveal_strlit("-");
    }
    let value = trim_exec(&chars_of(value));
    if value.len() == 0 {
        return false;
    }
    let minus = chars_of("-");
    if !starts_with_exec(&value, &minus) {
        return false;
    }
    let unsigned = sub_chars(&value, 1, value.len());
    proof {
        assert(value@.subrange(1, value@.len() as int) =~= value@.drop_first());
        reveal_strlit("0x");
        reveal_strlit("0X");
    }
    let hex = starts_with_exec(&unsigned, &chars_of("0x")) || starts_with_exec(
        &unsigned,
        &chars_of("0X"),
    );
    let magnitude = if hex {
        let digits = sub_chars(&unsigned, 2, unsigned.len());
        proof {
            assert(unsigned@.subrange(2, unsigned@.len() as int) =~= unsigned@.skip(2));
        }
        parse_i64_radix_exec(&digits, 16)
    } else {
        parse_i64_exec(&unsigned)
    };
    magnitude == Some(i64::MIN)
}

/// Reads an integer literal of a mapping config, such as `0x40`,
/// `-0x80000000` or `128`.
pub fn parse_integer(value: &str) -> (res: Result<i64, String>)
    requires
        !negation_overflows(value@),
    ensures
        match res {
            Ok(v) => integer_literal(value@) == Ok::<i64, Seq<char>>(v),
            Err(message) => integer_literal(value@) == Err::<i64, Seq<char>>(message@),
        },
{
    proof {
        reveal_strlit("empty integer value");
    }
    let value = trim_exec(&chars_of(value));
    if value.len() == 0 {
        return Err(String::from_str("empty integer value"));
    }
    let minus = chars_of("-");
    let negative = starts_with_exec(&value, &minus);
    let unsigned = if negative {
        sub_chars(&value, 1, value.len())
    } else {
        sub_chars(&value, 0, value.len())
    };
    proof {
        assert(value@.subrange(1, value@.len() as int) =~= value@.drop_first());
        assert(value@.subrange(0, value@.len() as int) =~= value@);
    }
    proof {
        reveal_strlit("0x");
        reveal_strlit("0X");
    }
    let hex = starts_with_exec(&unsigned, &chars_of("0x")) || starts_with_exec(
        &unsigned,
        &chars_of("0X"),
    );
    let digits = if hex {
        proof {
            assert(unsigned@.subrange(2, unsigned@.len() as int) =~= unsigned@.skip(2));
        }
        sub_chars(&unsigned, 2, unsigned.len())
    } else {
        proof {
            assert(unsigned@.subrange(0, unsigned@.len() as int) =~= unsigned@);
        }
        sub_chars(&unsigned, 0, unsigned.len())
    };
    let radix: u32 = if hex { 16 } else { 10 };
    let parsed = parse_i64_radix_exec(&digits, radix);
    match parsed {
        Some(p) => {
            if negative {
                Ok(-p)
            } else {
                Ok(p)
            }
        },
        None => {
            let quoted = debug_text(string_from_chars(&value).as_str());
            let reason = parse_error_text(string_from_chars(&digits).as_str(), radix);
            Err(invalid_integer_message(hex, quoted.as_str(), reason.as_str()))
        },
    }
}

} // verus!
