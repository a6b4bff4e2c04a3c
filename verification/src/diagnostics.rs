//! Diagnostics: the single structured error that ends a run.

use vstd::prelude::*;
use vstd::string::StringExecFns;

verus! {

/// A place in the record definition, as the front end names it.
///
/// The engine never interprets a location; it only carries the one that belongs to the
/// offending part of the input into the diagnostic.
#[derive(Clone, Copy, Debug, PartialEq, Eq, Structural)]
pub struct Location {
    pub id: usize,
}

/// What has a place in the record definition.
pub trait Located {
    spec fn location(&self) -> Location;

    /// The place of this item.
    fn span(&self) -> (r: Location)
        ensures
            r == self.location(),
    ;
}

/// The record shapes that cannot be given a builder.
#[derive(Clone, Copy, Debug, PartialEq, Eq, Structural)]
pub enum Shape {
    /// A product type with positional fields.
    Tuple,
    /// A product type declared without a field list.
    Unit,
    /// A product type whose named field list is empty.
    Empty,
    /// A sum type.
    Enum,
    /// An untagged union.
    Union,
}

/// What is wrong with a configuration entry that cannot be read.
#[derive(Clone, Copy, Debug, PartialEq, Eq, Structural)]
pub enum Malformation {
    /// The entry does not begin with a plain name.
    ExpectedIdentifier,
    /// The name is none that the engine knows.
    UnknownParameter,
    /// The entry takes a value and has none.
    ExpectedValue,
    /// The entry takes no value and has one.
    UnexpectedValue,
    /// The entry takes a string literal and has something else, or nothing.
    ExpectedString,
}

/// Why a run was rejected.
#[derive(Clone, Copy, Debug, PartialEq, Eq, Structural)]
pub enum ErrorKind {
    /// The record is not a product type with at least one named field.
    UnsupportedShape(Shape),
    /// Two configuration entries of one field cannot both apply.
    ConflictingConfiguration,
    /// A configuration entry cannot be read.
    MalformedConfiguration(Malformation),
    /// Two fields of the record go by one name.
    RepeatedField,
    /// A generic parameter of the record goes by the name that the engine makes up for the
    /// marker of one of its fields.
    ReservedName,
}

/// The one terminal error of a run.
#[derive(Debug, PartialEq, Eq)]
pub struct Diagnostic {
    pub kind: ErrorKind,
    /// Where the input went wrong: the record for a shape or a reserved name, the later of
    /// the two for a conflict or a repeated name, the entry itself where one cannot be read.
    pub location: Location,
    /// For a conflict or a repeated name, the earlier place that the one at `location`
    /// clashes with; for a reserved name, the field whose marker is taken.
    pub related: Option<Location>,
    /// For a failure within a field, the name of that field.
    pub field: Option<String>,
}

pub struct DiagnosticView {
    pub kind: ErrorKind,
    pub location: Location,
    pub related: Option<Location>,
    pub field: Option<Seq<char>>,
}

impl View for Diagnostic {
    type V = DiagnosticView;

    open spec fn view(&self) -> DiagnosticView {
        DiagnosticView {
            kind: self.kind,
            location: self.location,
            related: self.related,
            field: match self.field {
                Some(name) => Some(name@),
                None => None,
            },
        }
    }
}

/// What the text calls a shape.
pub open spec fn shape_noun(shape: Shape) -> Seq<char> {
    match shape {
        Shape::Tuple => "tuple structs"@,
        Shape::Unit => "unit structs"@,
        Shape::Empty => "structs without fields"@,
        Shape::Enum => "enums"@,
        Shape::Union => "unions"@,
    }
}

/// What the text says of an entry that cannot be read.
pub open spec fn malformation_text(what: Malformation) -> Seq<char> {
    match what {
        Malformation::ExpectedIdentifier => "Expected identifier"@,
        Malformation::UnknownParameter => "Unknown parameter"@,
        Malformation::ExpectedValue => "Expected (<...>=<...>)"@,
        Malformation::UnexpectedValue => "Expected no value"@,
        Malformation::ExpectedString => "Expected string"@,
    }
}

impl DiagnosticView {
    /// The diagnostic for an entry that cannot be read.
    pub open spec fn malformed(what: Malformation, at: Location) -> DiagnosticView {
        DiagnosticView {
            kind: ErrorKind::MalformedConfiguration(what),
            location: at,
            related: None,
            field: None,
        }
    }

    /// The diagnostic for a field that goes by the name of an earlier one.
    pub open spec fn repeated(later: Location, earlier: Location) -> DiagnosticView {
        DiagnosticView {
            kind: ErrorKind::RepeatedField,
            location: later,
            related: Some(earlier),
            field: None,
        }
    }

    /// The diagnostic for a record of which a generic parameter takes the marker of the
    /// field at `field`.
    pub open spec fn reserved(record: Location, field: Location) -> DiagnosticView {
        DiagnosticView {
            kind: ErrorKind::ReservedName,
            location: record,
            related: Some(field),
            field: None,
        }
    }

    /// The diagnostic for a record of an unsupported shape.
    pub open spec fn unsupported(shape: Shape, at: Location) -> DiagnosticView {
        DiagnosticView {
            kind: ErrorKind::UnsupportedShape(shape),
            location: at,
            related: None,
            field: None,
        }
    }

    /// The diagnostic for two items of which only one may stand.
    pub open spec fn multiple(later: Location, earlier: Location) -> DiagnosticView {
        DiagnosticView {
            kind: ErrorKind::ConflictingConfiguration,
            location: later,
            related: Some(earlier),
            field: None,
        }
    }

    /// The same diagnostic, naming the field it is about.
    pub open spec fn about(self, field: Seq<char>) -> DiagnosticView {
        DiagnosticView { field: Some(field), ..self }
    }

    /// The sentence that states the failure, without the field's name.
    pub open spec fn headline(self) -> Seq<char> {
        match self.kind {
            ErrorKind::UnsupportedShape(shape) => "SmartBuilder is not supported for "@
                + shape_noun(shape),
            ErrorKind::ConflictingConfiguration => "Multiple #[builder] on the same field"@,
            ErrorKind::MalformedConfiguration(what) => malformation_text(what),
            ErrorKind::RepeatedField => "Duplicate field"@,
            ErrorKind::ReservedName => "Generic parameter takes the reserved name of the field"@,
        }
    }

    /// The human-readable message: the headline, followed by the field's name between
    /// backquotes where the diagnostic names one.
    pub open spec fn message(self) -> Seq<char> {
        match self.field {
            Some(name) => self.headline() + " `"@ + name + "`"@,
            None => self.headline(),
        }
    }
}

impl Diagnostic {
    pub fn malformed(what: Malformation, at: Location) -> (r: Diagnostic)
        ensures
            r@ == DiagnosticView::malformed(what, at),
    {
        Diagnostic {
            kind: ErrorKind::MalformedConfiguration(what),
            location: at,
            related: None,
            field: None,
        }
    }

    pub fn repeated(later: Location, earlier: Location) -> (r: Diagnostic)
        ensures
            r@ == DiagnosticView::repeated(later, earlier),
    {
        Diagnostic {
            kind: ErrorKind::RepeatedField,
            location: later,
            related: Some(earlier),
            field: None,
        }
    }

    pub fn reserved(record: Location, field: Location) -> (r: Diagnostic)
        ensures
            r@ == DiagnosticView::reserved(record, field),
    {
        Diagnostic {
            kind: ErrorKind::ReservedName,
            location: record,
            related: Some(field),
            field: None,
        }
    }

    pub fn unsupported(shape: Shape, at: Location) -> (r: Diagnostic)
        ensures
            r@ == DiagnosticView::unsupported(shape, at),
    {
        Diagnostic {
            kind: ErrorKind::UnsupportedShape(shape),
            location: at,
            related: None,
            field: None,
        }
    }

    pub fn multiple(later: Location, earlier: Location) -> (r: Diagnostic)
        ensures
            r@ == DiagnosticView::multiple(later, earlier),
    {
        Diagnostic {
            kind: ErrorKind::ConflictingConfiguration,
            location: later,
            related: Some(earlier),
            field: None,
        }
    }

    pub fn about(self, field: &str) -> (r: Diagnostic)
        ensures
            r@ == self@.about(field@),
    {
        Diagnostic {
            kind: self.kind,
            location: self.location,
            related: self.related,
            field: Some(String::from_str(field)),
        }
    }

    /// Renders the diagnostic as text.
    pub fn message(&self) -> (r: String)
        ensures
            r@ == self@.message(),
    {
        let mut text = match self.kind {
            ErrorKind::UnsupportedShape(shape) => {
                let mut text = String::from_str("SmartBuilder is not supported for ");
                match shape {
                    Shape::Tuple => text.append("tuple structs"),
                    Shape::Unit => text.append("unit structs"),
                    Shape::Empty => text.append("structs without fields"),
                    Shape::Enum => text.append("enums"),
                    Shape::Union => text.append("unions"),
                }
                text
            },
            ErrorKind::ConflictingConfiguration => String::from_str(
                "Multiple #[builder] on the same field",
            ),
            ErrorKind::MalformedConfiguration(what) => match what {
                Malformation::ExpectedIdentifier => String::from_str("Expected identifier"),
                Malformation::UnknownParameter => String::from_str("Unknown parameter"),
                Malformation::ExpectedValue => String::from_str("Expected (<...>=<...>)"),
                Malformation::UnexpectedValue => String::from_str("Expected no value"),
                Malformation::ExpectedString => String::from_str("Expected string"),
            },
            ErrorKind::RepeatedField => String::from_str("Duplicate field"),
            ErrorKind::ReservedName => String::from_str(
                "Generic parameter takes the reserved name of the field",
            ),
        };
        match &self.field {
            Some(name) => {
                text.append(" `");
                text.append(name.as_str());
                text.append("`");
            },
            None => {},
        }
        text
    }
}

} // verus!
