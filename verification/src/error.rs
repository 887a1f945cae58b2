//! The failures that building and exploding a bill of materials can report.

use vstd::prelude::*;
use vstd::string::StringExecFns;

verus! {

/// A failure reported by the library.
#[derive(Debug, Clone, PartialEq, Eq)]
pub enum BomError {
    /// A referenced part is absent from the catalog.
    PartNotFound(String),
    /// A part occurs among its own ancestors; the text names the edge that
    /// closes the cycle.
    CircularDependency(String),
    /// A multiplier or a total left the range of quantities.
    QuantityCalculationOverflow {
        /// The parts or values involved, where known.
        context: Option<String>,
    },
    /// Two quantities of different kinds were combined.
    IncompatibleUnits(String, String),
    InvalidSubstituteRatio(String),
    DuplicatePartId(String),
    InvalidStructure(String),
    ConversionError(String),
}

/// The text between the two part ids of a cycle report.
pub open spec fn arrow() -> Seq<char> {
    " -> "@
}

/// The text that names the edge from `parent` to `child`.
pub open spec fn edge_text(parent: Seq<char>, child: Seq<char>) -> Seq<char> {
    parent + arrow() + child
}

/// Builds the text that names the edge from `parent` to `child`.
pub fn edge_label(parent: &str, child: &str) -> (text: String)
    ensures
        text@ == edge_text(parent@, child@),
{
    let mut text = String::from_str(parent);
    text.append(" -> ");
    text.append(child);
    text
}

impl BomError {
    /// What `message` returns, as a sequence of characters.
    pub open spec fn message_text(self) -> Seq<char> {
        match self {
            BomError::PartNotFound(id) => "Part not found: "@ + id@,
            BomError::CircularDependency(path) => "Circular dependency detected: "@ + path@,
            BomError::QuantityCalculationOverflow { .. } =>
                "Quantity calculation overflow during BOM explosion (likely due to deep hierarchy or cycle)"@,
            BomError::IncompatibleUnits(left, right) =>
                "Incompatible units: cannot operate on "@ + left@ + " and "@ + right@,
            BomError::InvalidSubstituteRatio(detail) => "Invalid substitute ratio: "@ + detail@,
            BomError::DuplicatePartId(id) => "Duplicate part ID: "@ + id@,
            BomError::InvalidStructure(detail) => "Invalid BOM structure: "@ + detail@,
            BomError::ConversionError(detail) => "Conversion error: "@ + detail@,
        }
    }

    /// The human-readable description of the failure.
    pub fn message(&self) -> (text: String)
        ensures
            text@ == self.message_text(),
    {
        match self {
            BomError::PartNotFound(id) => String::from_str("Part not found: ").concat(id.as_str()),
            BomError::CircularDependency(path) => String::from_str(
                "Circular dependency detected: ",
            ).concat(path.as_str()),
            BomError::QuantityCalculationOverflow { .. } => String::from_str(
                "Quantity calculation overflow during BOM explosion (likely due to deep hierarchy or cycle)",
            ),
            BomError::IncompatibleUnits(left, right) => String::from_str(
                "Incompatible units: cannot operate on ",
            ).concat(left.as_str()).concat(" and ").concat(right.as_str()),
            BomError::InvalidSubstituteRatio(detail) => String::from_str(
                "Invalid substitute ratio: ",
            ).concat(detail.as_str()),
            BomError::DuplicatePartId(id) => String::from_str("Duplicate part ID: ").concat(
                id.as_str(),
            ),
            BomError::InvalidStructure(detail) => String::from_str("Invalid BOM structure: ").concat(
                detail.as_str(),
            ),
            BomError::ConversionError(detail) => String::from_str("Conversion error: ").concat(
                detail.as_str(),
            ),
        }
    }
}

} // verus!
