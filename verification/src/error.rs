//! The failures that compilation, evaluation and mutation can report.
use vstd::prelude::*;

verus! {

/// The three shapes of a table.
#[derive(Clone, Copy, Debug, PartialEq, Eq, Structural)]
pub enum TableKind {
    Node,
    Edge,
    Assoc,
}

/// The ways in which a statement can be put together wrongly.
#[derive(Clone, Copy, Debug, PartialEq, Eq, Structural)]
pub enum Misuse {
    /// An operator was applied to the wrong number of operands.
    OperandCount,
    /// A mutation was handed an expression that is not fully evaluated.
    UnevaluatedExpression,
    /// The payload of a mutation is not a list.
    RecordsNotList,
    /// A record of a mutation is not a dictionary.
    RecordNotStruct,
    /// The `_type` field of a record is not text.
    TableNameNotText,
    /// A record names no table and the statement has no default table.
    NoTableName,
    /// The table that a record names cannot be inserted into.
    NotInsertable(TableKind),
    /// An edge record lacks its `_src` or `_dst` field.
    MissingEndpoint,
    /// The endpoint table of an edge is not a node table.
    EndpointNotNode,
    /// An endpoint of an edge record does not fit the key of its table.
    EndpointKeyMismatch,
    /// A table was supplied that the manager had not asked for.
    UnexpectedTable,
}

/// Every failure the library reports.
#[derive(Debug, PartialEq, Eq)]
pub enum Error {
    /// The text is not an expression of the grammar.
    Parse,
    /// A backslash in a string literal is followed by something that is no escape.
    InvalidEscapeSequence,
    /// A `\u` escape names a number that is no Unicode scalar value.
    InvalidUtfCode,
    /// A numeric literal has a digit outside its radix or does not fit its type.
    NumericParse,
    /// Division or remainder by zero, or a result outside the integers of 64 bits.
    Arithmetic,
    /// An operator was applied to operands of types it does not take.
    Type,
    /// A table name that the catalog does not know.
    UndefinedType(String),
    /// What the catalog holds under a table name is not fit to be the table of
    /// that name: it carries another name, or lists as attached to it a table
    /// that is no association of it.
    BadDataFormat(String),
    /// A statement that is put together wrongly.
    Logic(Misuse),
    /// The operator has no evaluation rule.
    Unimplemented,
}

/// What an [`Error`] is in specifications.
pub enum ErrorView {
    Parse,
    InvalidEscapeSequence,
    InvalidUtfCode,
    NumericParse,
    Arithmetic,
    Type,
    UndefinedType(Seq<char>),
    BadDataFormat(Seq<char>),
    Logic(Misuse),
    Unimplemented,
}

impl View for Error {
    type V = ErrorView;

    open spec fn view(&self) -> ErrorView {
        match self {
            Error::Parse => ErrorView::Parse,
            Error::InvalidEscapeSequence => ErrorView::InvalidEscapeSequence,
            Error::InvalidUtfCode => ErrorView::InvalidUtfCode,
            Error::NumericParse => ErrorView::NumericParse,
            Error::Arithmetic => ErrorView::Arithmetic,
            Error::Type => ErrorView::Type,
            Error::UndefinedType(name) => ErrorView::UndefinedType(name@),
            Error::BadDataFormat(name) => ErrorView::BadDataFormat(name@),
            Error::Logic(m) => ErrorView::Logic(*m),
            Error::Unimplemented => ErrorView::Unimplemented,
        }
    }
}

} // verus!
