//! Errors of the row-type identification subsystem, with rendered messages.

use vstd::prelude::*;

use crate::text::spec_decimal;
use crate::text::usize_to_string;

verus! {

/// What can go wrong while configuring or running row-type identification.
#[derive(Debug, Clone)]
pub enum IdentificationError {
    /// A cell carried colour data that could not be interpreted.
    InvalidColorData { row: usize, details: String },
    /// A rule's regular expression pattern was rejected.
    InvalidRegexPattern { rule: String, details: String },
    /// A profile holds no row-type definitions.
    EmptyProfile { profile: String },
    /// A profile or rule is otherwise misconfigured.
    InvalidConfiguration(String),
    /// Worksheet data could not be accessed.
    ExcelDataError(String),
    /// A workbook file could not be read.
    FileReadError(String),
    /// The requested worksheet does not exist.
    WorksheetNotFound(String),
    /// A row index lies outside the worksheet.
    RowIndexOutOfRange { row: usize, max: usize },
    /// A column index lies outside the row.
    ColumnIndexOutOfRange { col: usize, max: usize },
}

/// The rendered message of each identification error.
pub open spec fn spec_identification_message(e: IdentificationError) -> Seq<char> {
    match e {
        IdentificationError::InvalidColorData { row, details } => "Invalid color data in row "@
            + spec_decimal(row as nat) + ": "@ + details@,
        IdentificationError::InvalidRegexPattern { rule, details } => "Invalid regex pattern in rule '"@
            + rule@ + "': "@ + details@,
        IdentificationError::EmptyProfile { profile } => "No row type definitions in profile '"@
            + profile@ + "'"@,
        IdentificationError::InvalidConfiguration(m) => "Invalid configuration: "@ + m@,
        IdentificationError::ExcelDataError(m) => "Excel data access error: "@ + m@,
        IdentificationError::FileReadError(m) => "File read error: "@ + m@,
        IdentificationError::WorksheetNotFound(m) => "Worksheet not found: "@ + m@,
        IdentificationError::RowIndexOutOfRange { row, max } => "Row index "@ + spec_decimal(
            row as nat,
        ) + " out of range (max: "@ + spec_decimal(max as nat) + ")"@,
        IdentificationError::ColumnIndexOutOfRange { col, max } => "Column index "@ + spec_decimal(
            col as nat,
        ) + " out of range (max: "@ + spec_decimal(max as nat) + ")"@,
    }
}

impl IdentificationError {
    /// Builds an invalid-colour-data error.
    pub fn invalid_color_data(row: usize, details: &str) -> (e: IdentificationError)
        ensures
            e matches IdentificationError::InvalidColorData { row: r, details: d } && r == row
                && d@ == details@,
    {
        IdentificationError::InvalidColorData { row, details: details.to_owned() }
    }

    /// Builds an invalid-regex-pattern error.
    pub fn invalid_regex_pattern(rule: &str, details: &str) -> (e: IdentificationError)
        ensures
            e matches IdentificationError::InvalidRegexPattern { rule: r, details: d } && r@
                == rule@ && d@ == details@,
    {
        IdentificationError::InvalidRegexPattern {
            rule: rule.to_owned(),
            details: details.to_owned(),
        }
    }

    /// Builds an empty-profile error.
    pub fn empty_profile(profile: &str) -> (e: IdentificationError)
        ensures
            e matches IdentificationError::EmptyProfile { profile: p } && p@ == profile@,
    {
        IdentificationError::EmptyProfile { profile: profile.to_owned() }
    }

    /// Builds an invalid-configuration error.
    pub fn invalid_configuration(msg: &str) -> (e: IdentificationError)
        ensures
            e matches IdentificationError::InvalidConfiguration(m) && m@ == msg@,
    {
        IdentificationError::InvalidConfiguration(msg.to_owned())
    }

    /// Builds a worksheet-data access error.
    pub fn excel_data_error(msg: &str) -> (e: IdentificationError)
        ensures
            e matches IdentificationError::ExcelDataError(m) && m@ == msg@,
    {
        IdentificationError::ExcelDataError(msg.to_owned())
    }

    /// Builds a file-read error.
    pub fn file_read_error(msg: &str) -> (e: IdentificationError)
        ensures
            e matches IdentificationError::FileReadError(m) && m@ == msg@,
    {
        IdentificationError::FileReadError(msg.to_owned())
    }

    /// Builds a worksheet-not-found error.
    pub fn worksheet_not_found(name: &str) -> (e: IdentificationError)
        ensures
            e matches IdentificationError::WorksheetNotFound(m) && m@ == name@,
    {
        IdentificationError::WorksheetNotFound(name.to_owned())
    }

    /// Builds a row-out-of-range error.
    pub fn row_index_out_of_range(row: usize, max: usize) -> (e: IdentificationError)
        ensures
            e == (IdentificationError::RowIndexOutOfRange { row, max }),
    {
        IdentificationError::RowIndexOutOfRange { row, max }
    }

    /// Builds a column-out-of-range error.
    pub fn column_index_out_of_range(col: usize, max: usize) -> (e: IdentificationError)
        ensures
            e == (IdentificationError::ColumnIndexOutOfRange { col, max }),
    {
        IdentificationError::ColumnIndexOutOfRange { col, max }
    }

    /// Renders the error's message, exactly as
    /// [`spec_identification_message`] states it.
    pub fn message(&self) -> (r: String)
        ensures
            r@ == spec_identification_message(*self),
    {
        match self {
            IdentificationError::InvalidColorData { row, details } => {
                let mut s = "Invalid color data in row ".to_owned();
                s.append(usize_to_string(*row).as_str());
                s.append(": ");
                s.append(details.as_str());
                s
            },
            IdentificationError::InvalidRegexPattern { rule, details } => {
                let mut s = "Invalid regex pattern in rule '".to_owned();
                s.append(rule.as_str());
                s.append("': ");
                s.append(details.as_str());
                s
            },
            IdentificationError::EmptyProfile { profile } => {
                let mut s = "No row type definitions in profile '".to_owned();
                s.append(profile.as_str());
                s.append("'");
                s
            },
            IdentificationError::InvalidConfiguration(m) => {
                let mut s = "Invalid configuration: ".to_owned();
                s.append(m.as_str());
                s
            },
            IdentificationError::ExcelDataError(m) => {
                let mut s = "Excel data access error: ".to_owned();
                s.append(m.as_str());
                s
            },
            IdentificationError::FileReadError(m) => {
                let mut s = "File read error: ".to_owned();
                s.append(m.as_str());
                s
            },
            IdentificationError::WorksheetNotFound(m) => {
                let mut s = "Worksheet not found: ".to_owned();
                s.append(m.as_str());
                s
            },
            IdentificationError::RowIndexOutOfRange { row, max } => {
                let mut s = "Row index ".to_owned();
                s.append(usize_to_string(*row).as_str());
                s.append(" out of range (max: ");
                s.append(usize_to_string(*max).as_str());
                s.append(")");
                s
            },
            IdentificationError::ColumnIndexOutOfRange { col, max } => {
                let mut s = "Column index ".to_owned();
                s.append(usize_to_string(*col).as_str());
                s.append(" out of range (max: ");
                s.append(usize_to_string(*max).as_str());
                s.append(")");
                s
            },
        }
    }
}

} // verus!
