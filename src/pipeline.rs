//! The conversion pivot: every document is brought to the canonical CAMT
//! model, and the output is made from that model. MT940 and CSV convert
//! into each other only through it.
use vstd::prelude::*;
use crate::camt053::DocumentCamt053;
use crate::csv_format::{camt_from_csv, csv_rows, rows_view, DocumentCsv};
use crate::errors::{ConvertError, ParserError};
use crate::mt940::DocumentMt940;
use crate::text::eq_text;

verus! {

/// A document format.
#[derive(Clone, Copy, Debug, PartialEq, Eq, Structural)]
pub enum FormatType {
    /// No format, or one that is not known.
    Unknown,
    Csv,
    Xml,
    Mt940,
    Camt053,
}

/// A document in one of the three formats.
pub enum Document {
    DocumentCamt053(DocumentCamt053),
    DocumentMt940(DocumentMt940),
    DocumentCsv(DocumentCsv),
}

/// A conversion from one format to another.
pub struct PipelineConverter {
    pub data_in: FormatType,
    pub data_out: FormatType,
}

/// What `str::to_lowercase` gives for `s`.
pub uninterp spec fn lower_of(s: Seq<char>) -> Seq<char>;

/// Relies on `str::to_lowercase`: the lowercase form of `s`.
#[verifier::external_body]
fn lowercase(s: &str) -> (r: String)
    ensures
        r@ == lower_of(s@),
{
    s.to_lowercase()
}

/// The format that a lowercase name names.
pub open spec fn format_named(s: Seq<char>) -> FormatType {
    if s == "csv"@ {
        FormatType::Csv
    } else if s == "xml"@ {
        FormatType::Xml
    } else if s == "mt940"@ {
        FormatType::Mt940
    } else if s == "camt053"@ {
        FormatType::Camt053
    } else {
        FormatType::Unknown
    }
}

/// Whether bringing `doc` to the canonical model fails: only a CSV
/// document of fewer than 8 rows does.
pub open spec fn pivot_fails(doc: Document) -> bool {
    match doc {
        Document::DocumentCsv(d) => d.rows@.len() < 8,
        _ => false,
    }
}

/// `camt` is the canonical form of `doc`.
pub open spec fn pivot(doc: Document, camt: DocumentCamt053) -> bool {
    match doc {
        Document::DocumentCamt053(c) => camt == c,
        Document::DocumentMt940(m) => camt.bk_to_cstmr_stmt == m.document,
        Document::DocumentCsv(d) => camt.bk_to_cstmr_stmt@.len() == 1 && camt_from_csv(
            camt.bk_to_cstmr_stmt@[0],
            d.rows@,
        ),
    }
}

/// `r` is what the canonical document `camt` gives in format `fmt`.
pub open spec fn output(fmt: FormatType, camt: DocumentCamt053, r: Result<Document, ConvertError>) -> bool {
    match fmt {
        FormatType::Unknown => r matches Err(ConvertError::WriteError(_)),
        FormatType::Csv => if camt.bk_to_cstmr_stmt@.len() > 0 {
            r matches Ok(Document::DocumentCsv(d)) && exists|stamp: Seq<char>|
                rows_view(d.rows@) == #[trigger] csv_rows(camt.bk_to_cstmr_stmt@[0], stamp)
        } else {
            r matches Err(ConvertError::ParseError(_))
        },
        FormatType::Mt940 => r matches Ok(Document::DocumentMt940(m)) && m.document
            == camt.bk_to_cstmr_stmt,
        FormatType::Xml | FormatType::Camt053 => r matches Ok(Document::DocumentCamt053(c)) && c
            == camt,
    }
}

impl DocumentCamt053 {
    /// The canonical form of an MT940 document: its statements.
    pub fn from_mt940(mt940: DocumentMt940) -> (r: DocumentCamt053)
        ensures
            r.bk_to_cstmr_stmt == mt940.document,
    {
        let mut camt = DocumentCamt053::new();
        camt.bk_to_cstmr_stmt = mt940.document;
        camt
    }
}

impl DocumentMt940 {
    /// The MT940 form of a canonical document: its statements.
    pub fn from_camt(camt053: DocumentCamt053) -> (r: DocumentMt940)
        ensures
            r.document == camt053.bk_to_cstmr_stmt,
    {
        DocumentMt940 { document: camt053.bk_to_cstmr_stmt }
    }
}

impl PipelineConverter {
    /// The format that the lowercase `format_str` names.
    pub fn format_type_of_lowered(format_str: &str) -> (r: FormatType)
        ensures
            r == format_named(format_str@),
    {
        let s = String::from_str(format_str);
        if eq_text(&s, "csv") {
            FormatType::Csv
        } else if eq_text(&s, "xml") {
            FormatType::Xml
        } else if eq_text(&s, "mt940") {
            FormatType::Mt940
        } else if eq_text(&s, "camt053") {
            FormatType::Camt053
        } else {
            FormatType::Unknown
        }
    }

    /// The format that `format_str` names, in any case.
    pub fn get_format_type_from_string(format_str: &String) -> (r: FormatType)
        ensures
            r == format_named(lower_of(format_str@)),
    {
        let lower = lowercase(format_str.as_str());
        PipelineConverter::format_type_of_lowered(lower.as_str())
    }

    /// A converter with neither format set.
    pub fn default() -> (r: Self)
        ensures
            r.data_in == FormatType::Unknown,
            r.data_out == FormatType::Unknown,
    {
        PipelineConverter { data_in: FormatType::Unknown, data_out: FormatType::Unknown }
    }

    /// Brings a document to the canonical model.
    pub fn to_camt(doc: Document) -> (r: Result<DocumentCamt053, ConvertError>)
        ensures
            r is Err <==> pivot_fails(doc),
            r matches Err(e) ==> e matches ConvertError::ParseError(_),
            r matches Ok(camt) ==> pivot(doc, camt),
    {
        match doc {
            Document::DocumentCamt053(c) => Ok(c),
            Document::DocumentMt940(m) => Ok(DocumentCamt053::from_mt940(m)),
            Document::DocumentCsv(d) => match d.parse_to_camt() {
                Ok(c) => Ok(c),
                Err(e) => Err(ConvertError::from_parser(e)),
            },
        }
    }

    /// Makes the document of the output format from the canonical model.
    pub fn from_camt(&self, camt: DocumentCamt053) -> (r: Result<Document, ConvertError>)
        ensures
            output(self.data_out, camt, r),
    {
        match self.data_out {
            FormatType::Unknown => Err(ConvertError::WriteError(String::from_str("Bad output format"))),
            FormatType::Csv => match DocumentCsv::parse_to_csv(&camt) {
                Ok(d) => Ok(Document::DocumentCsv(d)),
                Err(e) => Err(ConvertError::from_parser(e)),
            },
            FormatType::Mt940 => Ok(Document::DocumentMt940(DocumentMt940::from_camt(camt))),
            FormatType::Camt053 | FormatType::Xml => Ok(Document::DocumentCamt053(camt)),
        }
    }

    /// Converts a document into the output format, through the canonical
    /// model.
    pub fn convert(&self, doc: Document) -> (r: Result<Document, ConvertError>)
        ensures
            pivot_fails(doc) ==> r matches Err(ConvertError::ParseError(_)),
            !pivot_fails(doc) ==> exists|camt: DocumentCamt053|
                #[trigger] pivot(doc, camt) && output(self.data_out, camt, r),
    {
        let ghost d = doc;
        match PipelineConverter::to_camt(doc) {
            Ok(camt) => {
                let ghost c = camt;
                let r = self.from_camt(camt);
                assert(pivot(d, c) && output(self.data_out, c, r));
                r
            },
            Err(e) => Err(e),
        }
    }
}

} // verus!
