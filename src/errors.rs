//! The library's two error kinds: reading a document, and converting it.
use vstd::prelude::*;

verus! {

/// A failure while reading an input document.
#[derive(Debug, PartialEq)]
pub enum ParserError {
    /// The input could not be read.
    FileReadError(String),
    /// The input is not in the expected format.
    BadInputFormatFile(String),
    /// The XML could not be deserialized.
    BadXmlDeserializeError(String),
    /// The CSV could not be deserialized.
    BadCsvDeserializeError(String),
}

/// A failure while converting a document.
#[derive(Debug, PartialEq)]
pub enum ConvertError {
    /// The conversion was asked for with a bad argument.
    BadArgument(String),
    /// The input could not be parsed.
    ParseError(String),
    /// The output could not be written.
    WriteError(String),
}

impl ParserError {
    /// The text that describes the error.
    pub open spec fn text(&self) -> Seq<char> {
        match self {
            ParserError::FileReadError(s) => "File read error: "@ + s@,
            ParserError::BadInputFormatFile(s) => "Bad input format file: "@ + s@,
            ParserError::BadCsvDeserializeError(s) => "Csv format deserialize error: "@ + s@,
            ParserError::BadXmlDeserializeError(s) => "Xml format deserialize error: "@ + s@,
        }
    }

    /// Describes the error in words.
    pub fn message(&self) -> (r: String)
        ensures
            r@ == self.text(),
    {
        let (mut m, s) = match self {
            ParserError::FileReadError(s) => (String::from_str("File read error: "), s),
            ParserError::BadInputFormatFile(s) => (String::from_str("Bad input format file: "), s),
            ParserError::BadCsvDeserializeError(s) => (
                String::from_str("Csv format deserialize error: "),
                s,
            ),
            ParserError::BadXmlDeserializeError(s) => (
                String::from_str("Xml format deserialize error: "),
                s,
            ),
        };
        m.append(s.as_str());
        m
    }
}

impl ConvertError {
    /// The text that describes the error.
    pub open spec fn text(&self) -> Seq<char> {
        match self {
            ConvertError::BadArgument(s) => "Bad argument: "@ + s@,
            ConvertError::ParseError(s) => "Parse error: "@ + s@,
            ConvertError::WriteError(s) => "Write error: "@ + s@,
        }
    }

    /// Describes the error in words.
    pub fn message(&self) -> (r: String)
        ensures
            r@ == self.text(),
    {
        let (mut m, s) = match self {
            ConvertError::BadArgument(s) => (String::from_str("Bad argument: "), s),
            ConvertError::ParseError(s) => (String::from_str("Parse error: "), s),
            ConvertError::WriteError(s) => (String::from_str("Write error: "), s),
        };
        m.append(s.as_str());
        m
    }

    /// A read failure, seen as a failure of the conversion.
    pub fn from_parser(err: ParserError) -> (r: ConvertError)
        ensures
            r matches ConvertError::ParseError(m) && m@ == err.text(),
    {
        ConvertError::ParseError(err.message())
    }
}

} // verus!
