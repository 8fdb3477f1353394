//! Conversion of bank account statements between CAMT.053 XML, SWIFT MT940
//! and a fixed-layout CSV export, through one canonical statement model.
pub mod errors;
pub mod text;
pub mod camt053;
pub mod mt940;
pub mod csv_format;
pub mod pipeline;
