//! What a validation run reports.
use crate::huml::field_set::texts;
use vstd::prelude::*;

verus! {

/// The report of one rule that found the record in error: the rule's message
/// and the fields it concerns, as the rule lists them.
#[derive(Debug, Eq, PartialEq)]
pub struct ValidationError {
    pub error: String,
    pub fields: Vec<String>,
}

/// A [`ValidationError`] as contracts see it.
pub struct ErrorView {
    pub error: Seq<char>,
    pub fields: Seq<Seq<char>>,
}

impl View for ValidationError {
    type V = ErrorView;

    open spec fn view(&self) -> ErrorView {
        ErrorView { error: self.error@, fields: texts(self.fields@) }
    }
}

/// The outcome of validating one record.
#[derive(Debug)]
pub struct ValidationSummary {
    /// Whether any rule found the record in error.
    pub has_errors: bool,
    /// One entry for each rule that did, in the order of registration.
    pub errors: Vec<ValidationError>,
    /// The fields those rules concern: sorted, each once.
    pub fields: Vec<String>,
}

/// A [`ValidationSummary`] as contracts see it.
pub struct SummaryView {
    pub has_errors: bool,
    pub errors: Seq<ErrorView>,
    pub fields: Seq<Seq<char>>,
}

impl View for ValidationSummary {
    type V = SummaryView;

    open spec fn view(&self) -> SummaryView {
        SummaryView {
            has_errors: self.has_errors,
            errors: self.errors@.map_values(|error: ValidationError| error@),
            fields: texts(self.fields@),
        }
    }
}

/// All fields of a list of errors, in the order of the errors, repetitions
/// included.
pub open spec fn fields_of(errors: Seq<ErrorView>) -> Seq<Seq<char>> {
    errors.map_values(|error: ErrorView| error.fields).flatten()
}

} // verus!
