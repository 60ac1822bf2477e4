//! The errors that can abort the processing of one document.
use vstd::prelude::*;
use vstd::string::StringExecFns;

verus! {

/// What went wrong while resolving one document.  Every variant is
/// scoped to a single document: the batch always continues.
#[derive(Debug, PartialEq, Eq)]
pub enum Error {
    /// The document is not well-formed XML.
    Xml,
    /// A required child element was absent; the payload names it.
    MissingElement(String),
    /// The declared coordinate-system name is not in the known table.
    UnsupportedCrs(String),
    /// A required attribute was absent from an element.
    MissingAttribute { element: String, attribute: String },
    /// A coordinate text did not parse as a number.
    ParseFloat(String),
    /// An `idref` pointed at a point or curve that was never declared.
    PointNotFound(String),
    /// An element appeared where another was expected.
    UnexpectedElement(String),
    /// The projection library rejected a coordinate.
    Projection,
    /// A required integer field did not parse.
    ParseInt(String),
    /// A derived geometric computation had nothing to work on.
    Geometry(String),
}

/// The mathematical shape of an [`Error`]: the same variants over
/// character sequences.
#[verifier::ext_equal]
pub enum ErrorV {
    Xml,
    MissingElement(Seq<char>),
    UnsupportedCrs(Seq<char>),
    MissingAttribute { element: Seq<char>, attribute: Seq<char> },
    ParseFloat(Seq<char>),
    PointNotFound(Seq<char>),
    UnexpectedElement(Seq<char>),
    Projection,
    ParseInt(Seq<char>),
    Geometry(Seq<char>),
}

impl View for Error {
    type V = ErrorV;

    open spec fn view(&self) -> ErrorV {
        match self {
            Error::Xml => ErrorV::Xml,
            Error::MissingElement(s) => ErrorV::MissingElement(s@),
            Error::UnsupportedCrs(s) => ErrorV::UnsupportedCrs(s@),
            Error::MissingAttribute { element, attribute } => ErrorV::MissingAttribute {
                element: element@,
                attribute: attribute@,
            },
            Error::ParseFloat(s) => ErrorV::ParseFloat(s@),
            Error::PointNotFound(s) => ErrorV::PointNotFound(s@),
            Error::UnexpectedElement(s) => ErrorV::UnexpectedElement(s@),
            Error::Projection => ErrorV::Projection,
            Error::ParseInt(s) => ErrorV::ParseInt(s@),
            Error::Geometry(s) => ErrorV::Geometry(s@),
        }
    }
}

/// The human-readable description of an error.
pub open spec fn error_text(e: ErrorV) -> Seq<char> {
    match e {
        ErrorV::Xml => "XML parsing error"@,
        ErrorV::MissingElement(s) => "Missing required element: "@ + s,
        ErrorV::UnsupportedCrs(s) => "Unsupported CRS: "@ + s,
        ErrorV::MissingAttribute { element, attribute } => "Missing attribute '"@ + attribute
            + "' on element '"@ + element + "'"@,
        ErrorV::ParseFloat(s) => "Failed to parse float: "@ + s,
        ErrorV::PointNotFound(s) => "Failed to find point referenced by ID: "@ + s,
        ErrorV::UnexpectedElement(s) => "Unexpected XML element: "@ + s,
        ErrorV::Projection => "Projection error"@,
        ErrorV::ParseInt(s) => "Parsing integer failed: "@ + s,
        ErrorV::Geometry(s) => "Geometry error: "@ + s,
    }
}

impl Error {
    /// Render the error for logs and messages.
    pub fn describe(&self) -> (r: String)
        ensures
            r@ == error_text(self@),
    {
        match self {
            Error::Xml => {
                let s = String::from_str("XML parsing error");
                s
            },
            Error::MissingElement(p) => {
                let mut s = String::from_str("Missing required element: ");
                s.append(p.as_str());
                s
            },
            Error::UnsupportedCrs(p) => {
                let mut s = String::from_str("Unsupported CRS: ");
                s.append(p.as_str());
                s
            },
            Error::MissingAttribute { element, attribute } => {
                let mut s = String::from_str("Missing attribute '");
                s.append(attribute.as_str());
                s.append("' on element '");
                s.append(element.as_str());
                s.append("'");
                s
            },
            Error::ParseFloat(p) => {
                let mut s = String::from_str("Failed to parse float: ");
                s.append(p.as_str());
                s
            },
            Error::PointNotFound(p) => {
                let mut s = String::from_str("Failed to find point referenced by ID: ");
                s.append(p.as_str());
                s
            },
            Error::UnexpectedElement(p) => {
                let mut s = String::from_str("Unexpected XML element: ");
                s.append(p.as_str());
                s
            },
            Error::Projection => {
                let s = String::from_str("Projection error");
                s
            },
            Error::ParseInt(p) => {
                let mut s = String::from_str("Parsing integer failed: ");
                s.append(p.as_str());
                s
            },
            Error::Geometry(p) => {
                let mut s = String::from_str("Geometry error: ");
                s.append(p.as_str());
                s
            },
        }
    }
}

} // verus!
