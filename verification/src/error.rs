//! What a request is refused with.
use vstd::prelude::*;

verus! {

/// What is wrong with a field.
#[derive(Clone, Copy, Debug, PartialEq, Eq, Structural)]
pub enum FieldErrorKind {
    Required,
    Invalid,
    Forbidden,
    NotFound,
}

/// A field that does not pass validation.
#[derive(Debug)]
pub struct FieldError {
    pub kind: FieldErrorKind,
    pub field: String,
    /// The value that was refused, as text; empty where none is reported.
    pub value: String,
    pub detail: String,
}

/// The content of a [`FieldError`].
pub struct FieldErrorView {
    pub kind: FieldErrorKind,
    pub field: Seq<char>,
    pub value: Seq<char>,
    pub detail: Seq<char>,
}

impl View for FieldError {
    type V = FieldErrorView;

    open spec fn view(&self) -> FieldErrorView {
        FieldErrorView {
            kind: self.kind,
            field: self.field@,
            value: self.value@,
            detail: self.detail@,
        }
    }
}

/// Why a request fails.
#[derive(Debug)]
pub enum Error {
    NotFound(String),
    AlreadyExists(String),
    Conflict(String),
    InvalidResource(String),
    BadRequest(String),
    Forbidden(String),
    Gone(String),
    Internal(String),
    Invalid(Vec<FieldError>),
}

/// The content of an [`Error`].
pub enum ErrorView {
    NotFound(Seq<char>),
    AlreadyExists(Seq<char>),
    Conflict(Seq<char>),
    InvalidResource(Seq<char>),
    BadRequest(Seq<char>),
    Forbidden(Seq<char>),
    Gone(Seq<char>),
    Internal(Seq<char>),
    Invalid(Seq<FieldErrorView>),
}

impl View for Error {
    type V = ErrorView;

    open spec fn view(&self) -> ErrorView {
        match self {
            Error::NotFound(m) => ErrorView::NotFound(m@),
            Error::AlreadyExists(m) => ErrorView::AlreadyExists(m@),
            Error::Conflict(m) => ErrorView::Conflict(m@),
            Error::InvalidResource(m) => ErrorView::InvalidResource(m@),
            Error::BadRequest(m) => ErrorView::BadRequest(m@),
            Error::Forbidden(m) => ErrorView::Forbidden(m@),
            Error::Gone(m) => ErrorView::Gone(m@),
            Error::Internal(m) => ErrorView::Internal(m@),
            Error::Invalid(fields) => ErrorView::Invalid(
                Seq::new(fields@.len(), |i: int| fields@[i]@),
            ),
        }
    }
}

/// The single field error that `Error::Invalid` carries here.
pub open spec fn invalid_field(
    kind: FieldErrorKind,
    field: Seq<char>,
    value: Seq<char>,
    detail: Seq<char>,
) -> ErrorView {
    ErrorView::Invalid(seq![FieldErrorView { kind, field, value, detail }])
}

/// An `Error::Invalid` with one field error.
pub fn one_invalid_field(kind: FieldErrorKind, field: &str, value: String, detail: &str) -> (e: Error)
    ensures
        e@ == invalid_field(kind, field@, value@, detail@),
{
    let mut fields: Vec<FieldError> = Vec::new();
    let ghost v = value@;
    fields.push(FieldError { kind, field: field.to_owned(), value, detail: detail.to_owned() });
    let e = Error::Invalid(fields);
    assert(Seq::new(fields@.len(), |i: int| fields@[i]@) =~= seq![
        FieldErrorView { kind, field: field@, value: v, detail: detail@ },
    ]);
    e
}

} // verus!
