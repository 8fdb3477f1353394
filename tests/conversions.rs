use bank_converter::camt053::DocumentCamt053;
use bank_converter::csv_format::{DocumentCsv, RowCsv};
use bank_converter::errors::{ConvertError, ParserError};
use bank_converter::mt940::DocumentMt940;
use bank_converter::pipeline::{Document, FormatType, PipelineConverter};

const RECORD: &str = "{1:F01GSCRUS30XXXX3614000002}{2:I940GSCRUS30XXXXN}{4:
:25:107048825
:28C:49/2
:60F:C250218USD100,00
:61:2502180218D12,01NTRFGSLNVSHSUTKWDR//GI2504900007841
:86:/EREF/GSLNVSHSUTKWDR/REMI/Payment
:62F:C250218USD87,99
}{5:-}";

fn converter(data_in: FormatType, data_out: FormatType) -> PipelineConverter {
    let mut c = PipelineConverter::default();
    c.data_in = data_in;
    c.data_out = data_out;
    c
}

fn mt940_document() -> DocumentMt940 {
    DocumentMt940 { document: vec![DocumentMt940::parse_one_record(RECORD).unwrap()] }
}

#[test]
fn format_names_in_any_case() {
    let f = |s: &str| PipelineConverter::get_format_type_from_string(&s.to_string());
    assert_eq!(f("CSV"), FormatType::Csv);
    assert_eq!(f("csv"), FormatType::Csv);
    assert_eq!(f("Xml"), FormatType::Xml);
    assert_eq!(f("MT940"), FormatType::Mt940);
    assert_eq!(f("CAMT053"), FormatType::Camt053);
    assert_eq!(f("pdf"), FormatType::Unknown);
    assert_eq!(PipelineConverter::format_type_of_lowered("CSV"), FormatType::Unknown);
}

#[test]
fn default_converter_has_no_formats() {
    let c = PipelineConverter::default();
    assert_eq!(c.data_in, FormatType::Unknown);
    assert_eq!(c.data_out, FormatType::Unknown);
}

#[test]
fn namespace_declarations_are_removed() {
    let xml = "<Document xmlns=\"urn:x\" xmlns:xsi=\"http://a\"><Stmt/></Document>";
    assert_eq!(DocumentCamt053::remove_name_space(xml).unwrap(), "<Document ><Stmt/></Document>");
    assert_eq!(DocumentCamt053::remove_name_space("<A/>").unwrap(), "<A/>");
}

#[test]
fn schema_root_is_added() {
    let xml = "<?xml version=\"1.0\" encoding=\"UTF-8\"?><Document><A/></Document>";
    let framed = DocumentCamt053::with_schema_root(xml);
    assert_eq!(
        framed,
        "<Document xmlns=\"urn:iso:std:iso:20022:tech:xsd:camt.053.001.02\" \
         xmlns:xsi=\"http://www.w3.org/2001/XMLSchema-instance\" \
         xsi:schemaLocation=\"urn:iso:std:iso:20022:tech:xsd:camt.053.001.02 camt.053.001.02.xsd\">\
         <A/></Document>"
    );
    assert_eq!(DocumentCamt053::with_schema_root("<B/>"), "<B/>");
}

#[test]
fn mt940_to_camt_keeps_the_statements() {
    let c = converter(FormatType::Mt940, FormatType::Camt053);
    match c.convert(Document::DocumentMt940(mt940_document())) {
        Ok(Document::DocumentCamt053(camt)) => {
            assert_eq!(camt.bk_to_cstmr_stmt.len(), 1);
            assert_eq!(camt.bk_to_cstmr_stmt[0].stmt.bal.len(), 2);
            assert_eq!(camt.bk_to_cstmr_stmt[0].stmt.bal[1].tp.cd_or_prtry.cd, "CLBD");
        }
        _ => panic!("expected a CAMT document"),
    }
}

#[test]
fn mt940_to_csv_goes_through_camt() {
    let c = converter(FormatType::Mt940, FormatType::Csv);
    match c.convert(Document::DocumentMt940(mt940_document())) {
        Ok(Document::DocumentCsv(csv)) => {
            assert_eq!(csv.rows.len(), 18);
            assert_eq!(csv.rows[4].m, "");
            assert_eq!(csv.rows[11].b, "18.02.2025");
            assert_eq!(csv.rows[11].j, "12.01");
            assert_eq!(csv.rows[11].u, "Payment,");
            assert_eq!(csv.rows[12].b, "");
            assert_eq!(csv.rows[15].b, "Входящий остаток");
            assert_eq!(csv.rows[15].h, "100.00");
            assert_eq!(csv.rows[16].b, "Итого оборотов");
            assert_eq!(csv.rows[17].b, "Исходящий остаток");
            assert_eq!(csv.rows[17].l, "87.99");
        }
        _ => panic!("expected a CSV document"),
    }
}

#[test]
fn csv_to_mt940_goes_through_camt() {
    let mut d = DocumentCsv::new();
    for _ in 0..8 {
        d.rows.push(RowCsv::new());
    }
    d.rows[7].c = "Доллар США".to_string();
    let c = converter(FormatType::Csv, FormatType::Mt940);
    match c.convert(Document::DocumentCsv(d)) {
        Ok(Document::DocumentMt940(m)) => {
            assert_eq!(m.document.len(), 1);
            let mut out = String::new();
            m.write_to(&mut out);
            assert_eq!(
                out,
                "{1:F01}\n{2:}\n{3:}\n{4:\n:20:\n:25:\n:28C:/\n:60F:USD\n:62F:USD\n}\n{5:-}\n"
            );
        }
        _ => panic!("expected an MT940 document"),
    }
}

#[test]
fn mismatched_entry_fields_give_no_record() {
    let text = "{1:F01GSCRUS30XXXX3614000002}{2:I940GSCRUS30XXXXN}{4:
:61:2502180218D12,01NTRFGSLNVSHSUTKWDR
:86:/EREF/GSLNVSHSUTKWDR
:61:2502180218D12,01NTRFGSOXWBAQYTF4VH
:62F:C250218USD87,99
}{5:-}";
    assert!(DocumentMt940::parse_one_record(text).is_none());
}

#[test]
fn short_csv_fails_to_convert() {
    let c = converter(FormatType::Csv, FormatType::Mt940);
    assert!(matches!(c.convert(Document::DocumentCsv(DocumentCsv::new())), Err(ConvertError::ParseError(_))));
}

#[test]
fn unknown_output_format_fails() {
    let c = converter(FormatType::Mt940, FormatType::Unknown);
    assert!(matches!(c.convert(Document::DocumentMt940(mt940_document())), Err(ConvertError::WriteError(_))));
}

#[test]
fn empty_camt_has_no_csv_form() {
    let c = converter(FormatType::Camt053, FormatType::Csv);
    assert!(matches!(c.convert(Document::DocumentCamt053(DocumentCamt053::new())), Err(ConvertError::ParseError(_))));
}

#[test]
fn error_messages() {
    let e = ParserError::BadInputFormatFile("x".to_string());
    assert_eq!(e.message(), "Bad input format file: x");
    let c = ConvertError::from_parser(e);
    assert_eq!(c, ConvertError::ParseError("Bad input format file: x".to_string()));
    assert_eq!(c.message(), "Parse error: Bad input format file: x");
    assert_eq!(ConvertError::WriteError("w".to_string()).message(), "Write error: w");
}
