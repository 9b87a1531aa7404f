//! The type validation engine: whether the text of a cell is acceptable for
//! the declared type of the field that the cell is assigned to.

use crate::backend::calendar::{date_fault, datetime_fault, naive_date_fault, naive_datetime_fault};
use crate::backend::csv_handler::{outcome_view, DataEntry, DataEntryView};
use crate::backend::database_handler::text_option_view;
use crate::decimal::{decimal_digits, scan_decimal};
use crate::text::{
    chars_of, denotes_integer_within, denotes_signed, find_char, index_of, lemma_index_of,
    parse_unsigned, trim_bounds, trimmed, unsigned_value,
};
use vstd::prelude::*;

verus! {

/// Why a cell's text was not accepted.
#[derive(Debug)]
pub enum ParseError {
    /// The text has a length that the type does not admit.
    TooLong,
    /// The digits around the decimal point are not as the type asks.
    TooManyNumbers,
    /// The text is not a number.
    NotANumber,
    /// The text is not an integer, or not one of the type's width.
    NumberTooBig,
    /// The text is not a date; the reason is carried along.
    InvalidDate(String),
    /// The field's type is not one that the engine knows; its name is
    /// carried along.
    UnknownType(String),
    /// The type is known, but its validation is not provided.
    NotImplemented,
    /// The type needs an argument that its declaration does not give.
    MissingArgument,
}

/// `ParseError` as the contracts see it.
pub enum ParseFault {
    TooLong,
    TooManyNumbers,
    NotANumber,
    NumberTooBig,
    InvalidDate(Seq<char>),
    UnknownType(Seq<char>),
    NotImplemented,
    MissingArgument,
}

impl View for ParseError {
    type V = ParseFault;

    open spec fn view(&self) -> ParseFault {
        match self {
            ParseError::TooLong => ParseFault::TooLong,
            ParseError::TooManyNumbers => ParseFault::TooManyNumbers,
            ParseError::NotANumber => ParseFault::NotANumber,
            ParseError::NumberTooBig => ParseFault::NumberTooBig,
            ParseError::InvalidDate(reason) => ParseFault::InvalidDate(reason@),
            ParseError::UnknownType(name) => ParseFault::UnknownType(name@),
            ParseError::NotImplemented => ParseFault::NotImplemented,
            ParseError::MissingArgument => ParseFault::MissingArgument,
        }
    }
}

impl Clone for ParseError {
    fn clone(&self) -> (res: Self)
        ensures
            res == *self,
    {
        match self {
            ParseError::TooLong => ParseError::TooLong,
            ParseError::TooManyNumbers => ParseError::TooManyNumbers,
            ParseError::NotANumber => ParseError::NotANumber,
            ParseError::NumberTooBig => ParseError::NumberTooBig,
            ParseError::InvalidDate(reason) => ParseError::InvalidDate(reason.clone()),
            ParseError::UnknownType(name) => ParseError::UnknownType(name.clone()),
            ParseError::NotImplemented => ParseError::NotImplemented,
            ParseError::MissingArgument => ParseError::MissingArgument,
        }
    }
}

impl ParseFault {
    /// The wording of the fault, as it is shown beside the cell.
    pub open spec fn message(self) -> Seq<char> {
        match self {
            ParseFault::TooLong => "Too long"@,
            ParseFault::TooManyNumbers => "too many numbers"@,
            ParseFault::NotANumber => "Not a number"@,
            ParseFault::NumberTooBig => "Number too big or not a number."@,
            ParseFault::InvalidDate(reason) => "Invalid date: "@ + reason,
            ParseFault::UnknownType(name) => name,
            ParseFault::NotImplemented => "Not implemented"@,
            ParseFault::MissingArgument => "Missing type argument"@,
        }
    }
}

impl ParseError {
    /// The wording of the error, as it is shown beside the cell.
    pub fn message(&self) -> (text: String)
        ensures
            text@ == self@.message(),
    {
        match self {
            ParseError::TooLong => "Too long".to_owned(),
            ParseError::TooManyNumbers => "too many numbers".to_owned(),
            ParseError::NotANumber => "Not a number".to_owned(),
            ParseError::NumberTooBig => "Number too big or not a number.".to_owned(),
            ParseError::InvalidDate(reason) => {
                let mut text = "Invalid date: ".to_owned();
                text.append(reason.as_str());
                text
            },
            ParseError::UnknownType(name) => name.clone(),
            ParseError::NotImplemented => "Not implemented".to_owned(),
            ParseError::MissingArgument => "Missing type argument".to_owned(),
        }
    }
}

/// `s` without its first and its last character.
pub open spec fn strip_ends(s: Seq<char>) -> Seq<char> {
    if s.len() >= 2 {
        s.subrange(1, s.len() - 1)
    } else {
        Seq::empty()
    }
}

/// Whether a list of arguments is a list of quoted values: its first item
/// begins with a quotation mark.
pub open spec fn is_value_list(list: Seq<char>) -> bool {
    list.len() > 0 && list[0] == '"'
}

/// The numbers among the items of a comma-separated list, in order. An item
/// that is not an unsigned 32-bit number is passed over.
pub open spec fn numeric_args(list: Seq<char>) -> Seq<u32>
    decreases list.len(),
{
    let k = index_of(list, ',');
    let head = match unsigned_value(list.take(k), u32::MAX as nat) {
        Some(v) => seq![v as u32],
        None => Seq::empty(),
    };
    if 0 <= k < list.len() {
        head + numeric_args(list.skip(k + 1))
    } else {
        head
    }
}

/// What the argument list of a type holds. The list comes with its brackets
/// and may have white space around it. A type without a list has no
/// arguments; a list of quoted values is not read.
pub open spec fn arguments(args: Option<Seq<char>>) -> Result<Option<Seq<u32>>, ParseFault> {
    match args {
        None => Ok(None),
        Some(list) => {
            let inner = strip_ends(trimmed(list));
            if is_value_list(inner) {
                Err(ParseFault::NotImplemented)
            } else {
                Ok(Some(numeric_args(inner)))
            }
        },
    }
}

/// The arguments that were read, or the error, as the contracts see them.
pub open spec fn numbers_view(r: Result<Option<Vec<u32>>, ParseError>) -> Result<
    Option<Seq<u32>>,
    ParseFault,
> {
    match r {
        Ok(Some(v)) => Ok(Some(v@)),
        Ok(None) => Ok(None),
        Err(e) => Err(e@),
    }
}

/// The argument of a type that takes one.
pub open spec fn one_argument(args: Option<Seq<char>>) -> Result<u32, ParseFault> {
    match arguments(args) {
        Err(e) => Err(e),
        Ok(None) => Err(ParseFault::MissingArgument),
        Ok(Some(numbers)) => if numbers.len() >= 1 {
            Ok(numbers[0])
        } else {
            Err(ParseFault::MissingArgument)
        },
    }
}

/// `varchar(n)` takes a text of at most `n` characters.
pub open spec fn varchar_verdict(text: Seq<char>, args: Option<Seq<char>>) -> Result<
    (),
    ParseFault,
> {
    match one_argument(args) {
        Err(e) => Err(e),
        Ok(n) => if text.len() <= n {
            Ok(())
        } else {
            Err(ParseFault::TooLong)
        },
    }
}

/// `char(n)` takes a text of more than `n` characters.
pub open spec fn char_verdict(text: Seq<char>, args: Option<Seq<char>>) -> Result<(), ParseFault> {
    match one_argument(args) {
        Err(e) => Err(e),
        Ok(n) => if text.len() > n {
            Ok(())
        } else {
            Err(ParseFault::TooLong)
        },
    }
}

/// The rule that `decimal(p, s)` and `double(p, s)` share. The text is a
/// number, it has at most `p` digits before its point, and after its point
/// at least `s` digits, or more than `s` where `strict` is set.
pub open spec fn fraction_verdict(text: Seq<char>, args: Option<Seq<char>>, strict: bool) -> Result<
    (),
    ParseFault,
> {
    match arguments(args) {
        Err(e) => Err(e),
        Ok(None) => Err(ParseFault::MissingArgument),
        Ok(Some(numbers)) => match decimal_digits(text) {
            None => Err(ParseFault::NotANumber),
            Some((whole, fraction)) => if numbers.len() < 2 {
                Err(ParseFault::MissingArgument)
            } else if whole <= numbers[0] && (if strict {
                fraction > numbers[1]
            } else {
                fraction >= numbers[1]
            }) {
                Ok(())
            } else {
                Err(ParseFault::TooManyNumbers)
            },
        },
    }
}

/// `decimal(p, s)` takes a number with at most `p` digits before its point
/// and at least `s` digits after it.
pub open spec fn decimal_verdict(text: Seq<char>, args: Option<Seq<char>>) -> Result<
    (),
    ParseFault,
> {
    fraction_verdict(text, args, false)
}

/// `double(p, s)` takes a number with at most `p` digits before its point
/// and more than `s` digits after it.
pub open spec fn double_verdict(text: Seq<char>, args: Option<Seq<char>>) -> Result<
    (),
    ParseFault,
> {
    fraction_verdict(text, args, true)
}

/// `int` takes a 32-bit signed integer.
pub open spec fn int_verdict(text: Seq<char>) -> Result<(), ParseFault> {
    if denotes_integer_within(text, i32::MIN as int, i32::MAX as int) {
        Ok(())
    } else {
        Err(ParseFault::NumberTooBig)
    }
}

/// `tinyint` takes an 8-bit signed integer.
pub open spec fn tinyint_verdict(text: Seq<char>) -> Result<(), ParseFault> {
    if denotes_integer_within(text, i8::MIN as int, i8::MAX as int) {
        Ok(())
    } else {
        Err(ParseFault::NumberTooBig)
    }
}

/// What becomes of a text that the calendar has looked at.
pub open spec fn calendar_verdict(fault: Option<Seq<char>>) -> Result<(), ParseFault> {
    match fault {
        None => Ok(()),
        Some(reason) => Err(ParseFault::InvalidDate(reason)),
    }
}

/// `date` takes the zero date, or a date written as year, month and day.
pub open spec fn date_verdict(text: Seq<char>) -> Result<(), ParseFault> {
    if text == "0000-00-00"@ {
        Ok(())
    } else {
        calendar_verdict(date_fault(text, "%Y-%m-%d"@))
    }
}

/// `datetime` takes the zero date with the zero time, or a date with a time
/// of day.
pub open spec fn datetime_verdict(text: Seq<char>) -> Result<(), ParseFault> {
    if text == "0000-00-00 00:00:00"@ {
        Ok(())
    } else {
        calendar_verdict(datetime_fault(text, "%Y-%m-%d %H:%M:%S"@))
    }
}

/// The name of a declared type: what stands before its argument list.
pub open spec fn declared_name(field_type: Seq<char>) -> Seq<char> {
    field_type.take(index_of(field_type, '('))
}

/// The argument list of a declared type, from its opening bracket on.
pub open spec fn declared_args(field_type: Seq<char>) -> Option<Seq<char>> {
    let k = index_of(field_type, '(');
    if k < field_type.len() {
        Some(field_type.skip(k))
    } else {
        None
    }
}

/// The name of a declared type ends before its first opening bracket: the
/// name holds no bracket, and the argument list, where there is one, begins
/// with a bracket and is the rest of the declaration.
pub proof fn lemma_name_ends_at_first_bracket(field_type: Seq<char>)
    ensures
        forall|j: int| 0 <= j < declared_name(field_type).len() ==> declared_name(field_type)[j] != '(',
        match declared_args(field_type) {
            Some(list) => list.len() > 0 && list[0] == '(' && declared_name(field_type) + list
                == field_type,
            None => declared_name(field_type) == field_type,
        },
{
    lemma_index_of(field_type, '(');
    let k = index_of(field_type, '(');
    assert(field_type.take(k) + field_type.skip(k) =~= field_type);
    assert(field_type.take(field_type.len() as int) =~= field_type);
}

/// The validation engine as a function: whether `text` is acceptable for a
/// field declared as `field_type`.
pub open spec fn validate(text: Seq<char>, field_type: Seq<char>) -> Result<(), ParseFault> {
    let name = declared_name(field_type);
    let args = declared_args(field_type);
    if name == "char"@ {
        char_verdict(text, args)
    } else if name == "varchar"@ {
        varchar_verdict(text, args)
    } else if name == "text"@ {
        Ok(())
    } else if name == "double"@ {
        double_verdict(text, args)
    } else if name == "decimal"@ {
        decimal_verdict(text, args)
    } else if name == "int"@ {
        int_verdict(text)
    } else if name == "tinyint"@ {
        tinyint_verdict(text)
    } else if name == "date"@ {
        date_verdict(text)
    } else if name == "datetime"@ {
        datetime_verdict(text)
    } else if name == "enum"@ {
        Err(ParseFault::NotImplemented)
    } else {
        Err(ParseFault::UnknownType(name))
    }
}

/// The outcome that a cell holds once it has been validated: that of the
/// engine for a cell with a field, and the one it had for a cell without.
pub open spec fn parsed_cell(cell: DataEntryView) -> Option<Result<(), ParseFault>> {
    match cell.curr_field_description {
        Some(description) => Some(validate(cell.data, description.field_type)),
        None => cell.is_parsed,
    }
}

/// Whether `text` reads `word`.
pub fn text_is(text: &String, word: &str) -> (b: bool)
    ensures
        b == (text@ == word@),
{
    let other = word.to_owned();
    *text == other
}

/// Reads the argument list of a declared type.
pub fn process_args(args: Option<String>) -> (r: Result<Option<Vec<u32>>, ParseError>)
    ensures
        numbers_view(r) == arguments(text_option_view(args)),
{
    match args {
        None => Ok(None),
        Some(list) => {
            let chars = chars_of(list.as_str());
            let (a, b) = trim_bounds(&chars);
            let (from, to) = if b - a >= 2 {
                (a + 1, b - 1)
            } else {
                (a, a)
            };
            let ghost inner = chars@.subrange(from as int, to as int);
            proof {
                assert(inner =~= strip_ends(trimmed(chars@)));
            }
            if from < to && chars[from] == '"' {
                return Err(ParseError::NotImplemented);
            }
            let mut numbers: Vec<u32> = Vec::new();
            let mut start: usize = from;
            let mut done = false;
            while !done
                invariant
                    from <= start <= to <= chars.len(),
                    inner == chars@.subrange(from as int, to as int),
                    !done ==> numbers@ + numeric_args(chars@.subrange(start as int, to as int))
                        == numeric_args(inner),
                    done ==> numbers@ == numeric_args(inner),
                decreases (to - start) + (if done { 0int } else { 1int }),
            {
                let ghost rest = chars@.subrange(start as int, to as int);
                let ghost before = numbers@;
                let k = find_char(&chars, start, to, ',');
                proof {
                    assert(rest.take(k - start) =~= chars@.subrange(start as int, k as int));
                }
                match parse_unsigned(&chars, start, k, 0xffff_ffff) {
                    Some(v) => {
                        numbers.push(v as u32);
                    },
                    None => {},
                }
                if k == to {
                    proof {
                        assert(numbers@ =~= before + numeric_args(rest));
                    }
                    done = true;
                } else {
                    proof {
                        assert(rest.skip(k - start + 1) =~= chars@.subrange(k + 1, to as int));
                        assert(numbers@ + numeric_args(chars@.subrange(k + 1, to as int)) =~= before
                            + numeric_args(rest));
                    }
                    start = k + 1;
                }
            }
            Ok(Some(numbers))
        },
    }
}

/// Validates a cell of a `char` field.
pub fn parse_char(cell: &mut DataEntry, args: Option<String>)
    ensures
        final(cell).data == old(cell).data,
        final(cell).curr_field_description == old(cell).curr_field_description,
        final(cell)@.is_parsed == Some(char_verdict(old(cell)@.data, text_option_view(args))),
{
    let count = cell.data.as_str().unicode_len();
    let verdict = match process_args(args) {
        Err(e) => Err(e),
        Ok(None) => Err(ParseError::MissingArgument),
        Ok(Some(numbers)) => if numbers.len() < 1 {
            Err(ParseError::MissingArgument)
        } else if count as u64 > numbers[0] as u64 {
            Ok(())
        } else {
            Err(ParseError::TooLong)
        },
    };
    cell.is_parsed = Some(verdict);
}

/// Validates a cell of a `varchar` field.
pub fn parse_varchar(cell: &mut DataEntry, args: Option<String>)
    ensures
        final(cell).data == old(cell).data,
        final(cell).curr_field_description == old(cell).curr_field_description,
        final(cell)@.is_parsed == Some(varchar_verdict(old(cell)@.data, text_option_view(args))),
{
    let count = cell.data.as_str().unicode_len();
    let verdict = match process_args(args) {
        Err(e) => Err(e),
        Ok(None) => Err(ParseError::MissingArgument),
        Ok(Some(numbers)) => if numbers.len() < 1 {
            Err(ParseError::MissingArgument)
        } else if count as u64 <= numbers[0] as u64 {
            Ok(())
        } else {
            Err(ParseError::TooLong)
        },
    };
    cell.is_parsed = Some(verdict);
}

/// Validates a cell of a `text` field: any text will do.
pub fn parse_text(cell: &mut DataEntry, args: Option<String>)
    ensures
        final(cell).data == old(cell).data,
        final(cell).curr_field_description == old(cell).curr_field_description,
        final(cell)@.is_parsed == Some(Ok::<(), ParseFault>(())),
{
    cell.is_parsed = Some(Ok(()));
}

/// Decides on a text by the rule that `decimal` and `double` share.
fn fraction_outcome(text: &String, args: Option<String>, strict: bool) -> (r: Result<
    (),
    ParseError,
>)
    ensures
        outcome_view(r) == fraction_verdict(text@, text_option_view(args), strict),
{
    match process_args(args) {
        Err(e) => Err(e),
        Ok(None) => Err(ParseError::MissingArgument),
        Ok(Some(numbers)) => {
            let chars = chars_of(text.as_str());
            match scan_decimal(&chars) {
                None => Err(ParseError::NotANumber),
                Some((whole, fraction)) => if numbers.len() < 2 {
                    Err(ParseError::MissingArgument)
                } else if whole as u64 <= numbers[0] as u64 && (if strict {
                    fraction as u64 > numbers[1] as u64
                } else {
                    fraction as u64 >= numbers[1] as u64
                }) {
                    Ok(())
                } else {
                    Err(ParseError::TooManyNumbers)
                },
            }
        },
    }
}

/// Validates a cell of a `double` field.
pub fn parse_double(cell: &mut DataEntry, args: Option<String>)
    ensures
        final(cell).data == old(cell).data,
        final(cell).curr_field_description == old(cell).curr_field_description,
        final(cell)@.is_parsed == Some(double_verdict(old(cell)@.data, text_option_view(args))),
{
    let verdict = fraction_outcome(&cell.data, args, true);
    cell.is_parsed = Some(verdict);
}

/// Validates a cell of a `decimal` field.
pub fn parse_decimal(cell: &mut DataEntry, args: Option<String>)
    ensures
        final(cell).data == old(cell).data,
        final(cell).curr_field_description == old(cell).curr_field_description,
        final(cell)@.is_parsed == Some(decimal_verdict(old(cell)@.data, text_option_view(args))),
{
    let verdict = fraction_outcome(&cell.data, args, false);
    cell.is_parsed = Some(verdict);
}

/// Validates a cell of an `int` field.
pub fn parse_int(cell: &mut DataEntry, args: Option<String>)
    ensures
        final(cell).data == old(cell).data,
        final(cell).curr_field_description == old(cell).curr_field_description,
        final(cell)@.is_parsed == Some(int_verdict(old(cell)@.data)),
{
    let chars = chars_of(cell.data.as_str());
    let verdict = if denotes_signed(&chars, 0x7fff_ffff) {
        Ok(())
    } else {
        Err(ParseError::NumberTooBig)
    };
    cell.is_parsed = Some(verdict);
}

/// Validates a cell of a `tinyint` field.
pub fn parse_tinyint(cell: &mut DataEntry, args: Option<String>)
    ensures
        final(cell).data == old(cell).data,
        final(cell).curr_field_description == old(cell).curr_field_description,
        final(cell)@.is_parsed == Some(tinyint_verdict(old(cell)@.data)),
{
    let chars = chars_of(cell.data.as_str());
    let verdict = if denotes_signed(&chars, 0x7f) {
        Ok(())
    } else {
        Err(ParseError::NumberTooBig)
    };
    cell.is_parsed = Some(verdict);
}

/// Turns what the calendar said of a text into the outcome of a cell.
pub fn calendar_outcome(fault: Option<String>) -> (r: Result<(), ParseError>)
    ensures
        outcome_view(r) == calendar_verdict(text_option_view(fault)),
{
    match fault {
        None => Ok(()),
        Some(reason) => Err(ParseError::InvalidDate(reason)),
    }
}

/// Validates a cell of a `date` field.
pub fn parse_date(cell: &mut DataEntry)
    ensures
        final(cell).data == old(cell).data,
        final(cell).curr_field_description == old(cell).curr_field_description,
        final(cell)@.is_parsed == Some(date_verdict(old(cell)@.data)),
{
    let verdict = if text_is(&cell.data, "0000-00-00") {
        Ok(())
    } else {
        calendar_outcome(naive_date_fault(cell.data.as_str(), "%Y-%m-%d"))
    };
    cell.is_parsed = Some(verdict);
}

/// Validates a cell of a `datetime` field.
pub fn parse_datetime(cell: &mut DataEntry)
    ensures
        final(cell).data == old(cell).data,
        final(cell).curr_field_description == old(cell).curr_field_description,
        final(cell)@.is_parsed == Some(datetime_verdict(old(cell)@.data)),
{
    let verdict = if text_is(&cell.data, "0000-00-00 00:00:00") {
        Ok(())
    } else {
        calendar_outcome(naive_datetime_fault(cell.data.as_str(), "%Y-%m-%d %H:%M:%S"))
    };
    cell.is_parsed = Some(verdict);
}

/// Validates a cell of an `enum` field. The comparison with the listed
/// values is not provided, so no text is accepted.
pub fn parse_enum(cell: &mut DataEntry, args: Option<String>)
    ensures
        final(cell).data == old(cell).data,
        final(cell).curr_field_description == old(cell).curr_field_description,
        final(cell)@.is_parsed == Some(Err::<(), ParseFault>(ParseFault::NotImplemented)),
{
    cell.is_parsed = Some(Err(ParseError::NotImplemented));
}

/// Validates a cell against the declared type of its field and stores the
/// outcome in the cell. A cell without a field is left as it is.
pub fn parse(cell: &mut DataEntry)
    ensures
        final(cell).data == old(cell).data,
        final(cell).curr_field_description == old(cell).curr_field_description,
        final(cell)@.is_parsed == parsed_cell(old(cell)@),
        old(cell).well_formed() ==> final(cell).well_formed(),
{
    let field_type: String = match &cell.curr_field_description {
        Some(description) => description.field_type.clone(),
        None => {
            return ;
        },
    };
    let chars = chars_of(field_type.as_str());
    let n = chars.len();
    let k = find_char(&chars, 0, n, '(');
    proof {
        assert(chars@.subrange(0, n as int) =~= chars@);
        assert(field_type@.subrange(0, k as int) =~= field_type@.take(k as int));
        assert(field_type@.subrange(k as int, n as int) =~= field_type@.skip(k as int));
    }
    let name: String = field_type.as_str().substring_char(0, k).to_owned();
    let args: Option<String> = if k < n {
        Some(field_type.as_str().substring_char(k, n).to_owned())
    } else {
        None
    };
    if text_is(&name, "char") {
        parse_char(cell, args);
    } else if text_is(&name, "varchar") {
        parse_varchar(cell, args);
    } else if text_is(&name, "text") {
        parse_text(cell, args);
    } else if text_is(&name, "double") {
        parse_double(cell, args);
    } else if text_is(&name, "decimal") {
        parse_decimal(cell, args);
    } else if text_is(&name, "int") {
        parse_int(cell, args);
    } else if text_is(&name, "tinyint") {
        parse_tinyint(cell, args);
    } else if text_is(&name, "date") {
        parse_date(cell);
    } else if text_is(&name, "datetime") {
        parse_datetime(cell);
    } else if text_is(&name, "enum") {
        parse_enum(cell, args);
    } else {
        cell.is_parsed = Some(Err(ParseError::UnknownType(name)));
    }
}

} // verus!
