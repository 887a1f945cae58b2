//! Parts and their descriptive attributes.

use vstd::prelude::*;
use std::collections::HashMap;

verus! {

/// The identifier of a part.
pub type PartId = String;

/// A part or an assembly, as the catalog describes it.
#[derive(Debug)]
pub struct Part {
    /// Unique identifier.
    pub id: PartId,
    /// Human-readable name.
    pub name: String,
    pub description: Option<String>,
    /// The manufacturer's part number.
    pub part_number: Option<String>,
    pub manufacturer: Option<String>,
    /// Free-form attributes.
    pub attributes: HashMap<String, String>,
}

/// What a part says, as plain values.
pub ghost struct PartView {
    pub id: Seq<char>,
    pub name: Seq<char>,
    pub description: Option<Seq<char>>,
    pub part_number: Option<Seq<char>>,
    pub manufacturer: Option<Seq<char>>,
    pub attributes: Map<String, String>,
}

/// The characters of an optional text.
pub open spec fn text_view(text: Option<String>) -> Option<Seq<char>> {
    match text {
        Some(s) => Some(s@),
        None => None,
    }
}

/// A copy of an optional text.
pub fn copy_text(text: &Option<String>) -> (copy: Option<String>)
    ensures
        copy == *text,
{
    match text {
        Some(s) => Some(s.clone()),
        None => None,
    }
}

impl View for Part {
    type V = PartView;

    open spec fn view(&self) -> PartView {
        PartView {
            id: self.id@,
            name: self.name@,
            description: text_view(self.description),
            part_number: text_view(self.part_number),
            manufacturer: text_view(self.manufacturer),
            attributes: self.attributes@,
        }
    }
}

impl Clone for Part {
    fn clone(&self) -> (copy: Self)
        ensures
            copy@ == self@,
            copy.id == self.id,
    {
        Part {
            id: self.id.clone(),
            name: self.name.clone(),
            description: copy_text(&self.description),
            part_number: copy_text(&self.part_number),
            manufacturer: copy_text(&self.manufacturer),
            attributes: self.attributes.clone(),
        }
    }
}

} // verus!
