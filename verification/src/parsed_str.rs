//! A text field together with the number it was parsed into.

use vstd::prelude::*;
use vstd::string::*;
use crate::decimal::{decimal, parse_usize, lemma_parse_decimal};
use crate::number_text::{parse_usize_text, usize_text};

verus! {

/// A string that has been parsed to a number, keeping both.
/// An empty string stands for no value.
#[derive(Debug, Clone)]
pub struct ParsedStr {
    string: String,
    val: Option<usize>,
}

/// The value that a text field holds: none for empty text, else what the
/// text parses to.
pub open spec fn text_value(text: Seq<char>) -> Option<usize> {
    if text.len() == 0 {
        None
    } else {
        parse_usize(text)
    }
}

/// The text that a value is shown with: empty for none, else its decimal
/// representation.
pub open spec fn value_text(val: Option<usize>) -> Seq<char> {
    match val {
        Some(v) => decimal(v as nat),
        None => Seq::empty(),
    }
}

/// The status message that reports a change of the field named `msg`.
pub open spec fn change_message(msg: Seq<char>, val: Option<usize>) -> Seq<char> {
    match val {
        Some(v) => "changed "@ + msg + " to "@ + decimal(v as nat),
        None => "changed "@ + msg + " to none"@,
    }
}

impl View for ParsedStr {
    type V = (Seq<char>, Option<usize>);

    closed spec fn view(&self) -> (Seq<char>, Option<usize>) {
        (self.string@, self.val)
    }
}

impl ParsedStr {
    /// The empty field, holding no value.
    pub fn new() -> (res: Self)
        ensures
            res@ == (Seq::<char>::empty(), None::<usize>),
    {
        ParsedStr { string: String::new(), val: None }
    }

    /// A field holding `value`, shown as its decimal text.
    pub fn from_value(value: usize) -> (res: Self)
        ensures
            res@ == (decimal(value as nat), Some(value)),
    {
        ParsedStr { string: usize_text(value), val: Some(value) }
    }

    /// Parses `s` into a field: empty text gives no value, other text must
    /// parse as a number.
    pub fn from_text(s: &str) -> (res: Result<Self, std::num::ParseIntError>)
        ensures
            res is Ok <==> (s@.len() == 0 || parse_usize(s@) is Some),
            res matches Ok(p) ==> p@ == (s@, text_value(s@)),
    {
        if s.is_empty() {
            Ok(ParsedStr { string: String::new(), val: None })
        } else {
            let val = parse_usize_text(s)?;
            Ok(ParsedStr { string: String::from_str(s), val: Some(val) })
        }
    }

    /// The text of the field.
    pub fn as_str(&self) -> (s: &str)
        ensures
            s@ == self@.0,
    {
        self.string.as_str()
    }

    /// The value, zero when there is none, together with the text.
    pub fn as_tuple(&self) -> (res: (usize, &str))
        ensures
            res.0 == match self@.1 {
                Some(v) => v,
                None => 0,
            },
            res.1@ == self@.0,
    {
        let v = match self.val {
            Some(v) => v,
            None => 0,
        };
        (v, self.string.as_str())
    }

    /// The value of the field.
    pub fn value(&self) -> (res: Option<usize>)
        ensures
            res == self@.1,
    {
        self.val
    }

    /// Replaces the value, and the text with the value's text.
    pub fn set_value(&mut self, val: Option<usize>)
        ensures
            final(self)@ == (value_text(val), val),
    {
        self.string = match val {
            Some(v) => usize_text(v),
            None => String::new(),
        };
        self.val = val;
    }

    /// Parses `from` into the field and returns a message saying what the
    /// field named `msg` was changed to. If `from` is neither empty nor a
    /// number the field is left unchanged and the parse error returned.
    pub fn parse_with_message(&mut self, from: &str, msg: &str) -> (res: Result<
        String,
        std::num::ParseIntError,
    >)
        ensures
            res is Ok <==> (from@.len() == 0 || parse_usize(from@) is Some),
            res matches Ok(out) ==> {
                &&& final(self)@ == (from@, text_value(from@))
                &&& out@ == change_message(msg@, text_value(from@))
            },
            res is Err ==> *final(self) == *old(self),
    {
        if from.is_empty() {
            let mut out = String::from_str("changed ");
            out.append(msg);
            out.append(" to none");
            self.val = None;
            self.string = String::new();
            Ok(out)
        } else {
            let val = parse_usize_text(from)?;
            let mut out = String::from_str("changed ");
            out.append(msg);
            out.append(" to ");
            let shown = usize_text(val);
            out.append(shown.as_str());
            self.val = Some(val);
            self.string = String::from_str(from);
            Ok(out)
        }
    }
}

impl std::str::FromStr for ParsedStr {
    type Err = std::num::ParseIntError;

    /// Parses a field as `from_text` does.
    fn from_str(s: &str) -> (res: Result<Self, Self::Err>)
        ensures
            res is Ok <==> (s@.len() == 0 || parse_usize(s@) is Some),
            res matches Ok(p) ==> p@ == (s@, text_value(s@)),
    {
        ParsedStr::from_text(s)
    }
}

impl Default for ParsedStr {
    fn default() -> (res: Self)
        ensures
            res@ == (Seq::<char>::empty(), None::<usize>),
    {
        ParsedStr::new()
    }
}

/// Writing a value into a field and reading its text back gives the value
/// again: the text a field shows always parses to the value it holds.
pub proof fn lemma_value_text_round_trip(val: Option<usize>)
    ensures
        text_value(value_text(val)) == val,
{
    if let Some(v) = val {
        lemma_parse_decimal(v);
        crate::decimal::lemma_decimal_digits(v as nat);
    }
}

} // verus!
