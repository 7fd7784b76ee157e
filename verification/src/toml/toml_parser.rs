use vstd::prelude::*;
use vstd::string::*;
use crate::text::{decimal_string, decimal_text};
use crate::toml::raw::{meaning, RawData, RawToml};
use crate::toml::value::{TomlData, TomlValue};

verus! {

/// The `toml` crate's value, which the reading and the writing of a
/// document go through.
#[verifier::external_type_specification]
#[verifier::external_body]
pub struct ExTomlCrateValue(::toml::Value);

/// Why the input file could not be read as TOML: the file could not be
/// read, or its text is not TOML (with the line and column, counted from
/// zero, where the TOML reader stopped, where it tells them).
#[derive(Debug)]
pub enum ParseFailed {
    FileError(String),
    TomlError { position: Option<(usize, usize)>, message: String },
}

pub enum ParseFailedView {
    FileError(Seq<char>),
    TomlError(Option<(usize, usize)>, Seq<char>),
}

impl View for ParseFailed {
    type V = ParseFailedView;

    open spec fn view(&self) -> ParseFailedView {
        match self {
            ParseFailed::FileError(m) => ParseFailedView::FileError(m@),
            ParseFailed::TomlError { position, message } => ParseFailedView::TomlError(
                *position,
                message@,
            ),
        }
    }
}

/// What the `toml` crate reads from the text of a document: the value as it
/// reads it, or where (line and column, if it tells them) and why it stopped.
pub uninterp spec fn toml_reading(text: Seq<char>) -> Result<RawData, (Option<(usize, usize)>, Seq<char>)>;

/// The library's plain copy of a value that the `toml` crate read, variant
/// for variant: a float and a date by their text, a table by its entries in
/// the order in which the crate's map lists them.
#[verifier::external_body]
fn raw_of(value: ::toml::Value) -> RawToml {
    match value {
        ::toml::Value::String(s) => RawToml::String(s),
        ::toml::Value::Integer(i) => RawToml::Integer(i),
        ::toml::Value::Float(f) => RawToml::Float(f.to_string()),
        ::toml::Value::Boolean(b) => RawToml::Boolean(b),
        ::toml::Value::Datetime(d) => RawToml::Datetime(d.to_string()),
        ::toml::Value::Array(items) => RawToml::Array(items.into_iter().map(raw_of).collect()),
        ::toml::Value::Table(map) => RawToml::Table(
            map.into_iter().map(|(key, item)| (key, raw_of(item))).collect(),
        ),
    }
}

/// `str::parse::<toml::Value>` on `text` (the `toml` crate's reading of a
/// document): the value read, copied by `raw_of`, is the reading that
/// `toml_reading` names, a function of the text alone; an error carries the
/// reader's position, if it tells one, and its message.
#[verifier::external_body]
fn read_toml_text(text: &str) -> (r: Result<RawToml, ParseFailed>)
    ensures
        match r {
            Ok(raw) => toml_reading(text@) == Ok::<RawData, (Option<(usize, usize)>, Seq<char>)>(
                raw@,
            ),
            Err(e) => e is TomlError && toml_reading(text@) == Err::<
                RawData,
                (Option<(usize, usize)>, Seq<char>),
            >((e->position, e->message@)),
        },
{
    match text.parse::<::toml::Value>() {
        Ok(v) => Ok(raw_of(v)),
        Err(e) => Err(ParseFailed::TomlError { position: e.line_col(), message: e.to_string() }),
    }
}

/// What reading a file as TOML gives: the failure to read it, or the
/// reading of its text.
pub open spec fn parse_outcome(contents: Result<Seq<char>, Seq<char>>) -> Result<
    TomlData,
    ParseFailedView,
> {
    match contents {
        Err(e) => Err(ParseFailedView::FileError(e)),
        Ok(text) => match toml_reading(text) {
            Ok(raw) => Ok(meaning(raw)),
            Err((position, message)) => Err(ParseFailedView::TomlError(position, message)),
        },
    }
}

pub open spec fn parsed_view(r: Result<TomlValue, ParseFailed>) -> Result<TomlData, ParseFailedView> {
    match r {
        Ok(v) => Ok(v.data()),
        Err(e) => Err(e@),
    }
}

pub open spec fn contents_view(c: Result<String, String>) -> Result<Seq<char>, Seq<char>> {
    match c {
        Ok(t) => Ok(t@),
        Err(e) => Err(e@),
    }
}

/// Reads the contents of a file as a TOML document: `contents` is the text
/// of the file, or why it could not be read.
pub fn parse_toml(contents: Result<String, String>) -> (r: Result<TomlValue, ParseFailed>)
    ensures
        parsed_view(r) == parse_outcome(contents_view(contents)),
{
    match contents {
        Err(e) => Err(ParseFailed::FileError(e)),
        Ok(text) => match read_toml_text(text.as_str()) {
            Ok(raw) => Ok(TomlValue::from_raw(&raw)),
            Err(e) => Err(e),
        },
    }
}

/// The failure has what its report needs: a position, where the text was
/// not TOML.
pub open spec fn reportable(e: ParseFailedView) -> bool {
    e matches ParseFailedView::TomlError(position, _) ==> position is Some
}

pub open spec fn parse_failure_report(input: Seq<char>, e: ParseFailedView) -> Seq<char> {
    match e {
        ParseFailedView::FileError(m) => "Error reading "@ + input + ":\n"@ + m,
        ParseFailedView::TomlError(position, m) => {
            let (line, column) = position->0;
            "Error parsing "@ + input + " at line "@ + decimal_text(line as nat) + ", char "@
                + decimal_text(column as nat) + ":\n"@ + m
        },
    }
}

impl ParseFailed {
    /// Whether the failure has what its report needs.
    pub fn is_reportable(&self) -> (r: bool)
        ensures
            r == reportable(self@),
    {
        match self {
            ParseFailed::FileError(_) => true,
            ParseFailed::TomlError { position, .. } => position.is_some(),
        }
    }

    /// The message that reports this failure on the input file `input`.
    pub fn report(&self, input: &str) -> (r: String)
        requires
            reportable(self@),
        ensures
            r@ == parse_failure_report(input@, self@),
    {
        match self {
            ParseFailed::FileError(m) => {
                let mut s = String::from_str("Error reading ");
                s.append(input);
                s.append(":\n");
                s.append(m.as_str());
                s
            },
            ParseFailed::TomlError { position, message } => {
                let (line, column) = match position {
                    Some(p) => *p,
                    None => {
                        proof {
                            assert(false);
                        }
                        (0, 0)
                    },
                };
                let mut s = String::from_str("Error parsing ");
                s.append(input);
                s.append(" at line ");
                let l = decimal_string(line);
                s.append(l.as_str());
                s.append(", char ");
                let c = decimal_string(column);
                s.append(c.as_str());
                s.append(":\n");
                s.append(message.as_str());
                s
            },
        }
    }
}

/// Reading a file: a file that cannot be read fails with why; the text of
/// one that can is the document that the TOML reader reads from it, each
/// value as read (see `law_reading_keeps_values`), or fails where the reader
/// stops, with its position and message.
pub proof fn law_parse_outcome(contents: Result<Seq<char>, Seq<char>>)
    ensures
        contents matches Err(why) ==> parse_outcome(contents) == Err::<TomlData, ParseFailedView>(
            ParseFailedView::FileError(why),
        ),
        contents matches Ok(text) ==> match toml_reading(text) {
            Ok(raw) => parse_outcome(contents) == Ok::<TomlData, ParseFailedView>(meaning(raw)),
            Err((position, message)) => parse_outcome(contents) == Err::<
                TomlData,
                ParseFailedView,
            >(ParseFailedView::TomlError(position, message)),
        },
{
}

/// The report of a failure to read the input file names the file and says
/// why; that of a text that is not TOML also gives the line and column
/// where the reader stopped.
pub proof fn law_parse_failure_report(input: Seq<char>, e: ParseFailedView)
    ensures
        e matches ParseFailedView::FileError(why) ==> parse_failure_report(input, e)
            == "Error reading "@ + input + ":\n"@ + why,
        e matches ParseFailedView::TomlError(Some(position), message) ==> parse_failure_report(
            input,
            e,
        ) == "Error parsing "@ + input + " at line "@ + decimal_text(position.0 as nat)
            + ", char "@ + decimal_text(position.1 as nat) + ":\n"@ + message,
{
}

/// A failure can be reported unless it is a text that is not TOML for which
/// the reader gave no position.
pub proof fn law_reportable(e: ParseFailedView)
    ensures
        reportable(e) <==> !(e matches ParseFailedView::TomlError(None, _)),
{
}

} // verus!
