//! The receiver description that resolution works on.

use vstd::prelude::*;
use vstd::string::StringExecFns;
use crate::text::{option_text, views};

verus! {

/// The three shapes an attribute can have: `#[name]`, `#[name(...)]`, `#[name = value]`.
#[derive(Clone, Copy, Debug, PartialEq, Eq, Structural)]
pub enum AttributeShape {
    Path,
    List,
    NameValue,
}

/// One attribute of a field, not yet interpreted.
///
/// `payload` is the token text between the parentheses of a list attribute, the value of a
/// name-value attribute, and empty for a bare path.
#[derive(Clone, Debug, PartialEq, Eq)]
pub struct RawAttribute {
    pub path: String,
    pub shape: AttributeShape,
    pub payload: String,
}

/// What a [`RawAttribute`] holds, as mathematical values.
pub struct RawAttributeView {
    pub path: Seq<char>,
    pub shape: AttributeShape,
    pub payload: Seq<char>,
}

impl View for RawAttribute {
    type V = RawAttributeView;

    open spec fn view(&self) -> RawAttributeView {
        RawAttributeView { path: self.path@, shape: self.shape, payload: self.payload@ }
    }
}

impl RawAttribute {
    /// The attribute `#[path]`.
    pub fn path(path: &str) -> (r: RawAttribute)
        ensures
            r@ == (RawAttributeView {
                path: path@,
                shape: AttributeShape::Path,
                payload: Seq::<char>::empty(),
            }),
    {
        RawAttribute {
            path: String::from_str(path),
            shape: AttributeShape::Path,
            payload: String::new(),
        }
    }

    /// The attribute `#[path(payload)]`.
    pub fn list(path: &str, payload: &str) -> (r: RawAttribute)
        ensures
            r@ == (RawAttributeView { path: path@, shape: AttributeShape::List, payload: payload@ }),
    {
        RawAttribute {
            path: String::from_str(path),
            shape: AttributeShape::List,
            payload: String::from_str(payload),
        }
    }

    /// The attribute `#[path = payload]`.
    pub fn name_value(path: &str, payload: &str) -> (r: RawAttribute)
        ensures
            r@ == (RawAttributeView {
                path: path@,
                shape: AttributeShape::NameValue,
                payload: payload@,
            }),
    {
        RawAttribute {
            path: String::from_str(path),
            shape: AttributeShape::NameValue,
            payload: String::from_str(payload),
        }
    }
}

/// One field of the receiver. A positional field has no name.
#[derive(Clone, Debug, PartialEq, Eq)]
pub struct FieldDescription {
    pub name: Option<String>,
    pub ty: String,
    pub attrs: Vec<RawAttribute>,
}

/// What a [`FieldDescription`] holds, as mathematical values.
pub struct FieldDescriptionView {
    pub name: Option<Seq<char>>,
    pub ty: Seq<char>,
    pub attrs: Seq<RawAttributeView>,
}

impl View for FieldDescription {
    type V = FieldDescriptionView;

    open spec fn view(&self) -> FieldDescriptionView {
        FieldDescriptionView {
            name: option_text(self.name),
            ty: self.ty@,
            attrs: views(self.attrs@),
        }
    }
}

impl FieldDescription {
    /// A field with a name.
    pub fn named(name: &str, ty: &str, attrs: Vec<RawAttribute>) -> (r: FieldDescription)
        ensures
            r@ == (FieldDescriptionView { name: Some(name@), ty: ty@, attrs: views(attrs@) }),
    {
        FieldDescription {
            name: Some(String::from_str(name)),
            ty: String::from_str(ty),
            attrs,
        }
    }

    /// A field without a name.
    pub fn positional(ty: &str, attrs: Vec<RawAttribute>) -> (r: FieldDescription)
        ensures
            r@ == (FieldDescriptionView { name: None, ty: ty@, attrs: views(attrs@) }),
    {
        FieldDescription { name: None, ty: String::from_str(ty), attrs }
    }
}

/// The struct that conversions are generated into: its name and its fields in declaration
/// order.
#[derive(Clone, Debug, PartialEq, Eq)]
pub struct ReceiverDescription {
    pub name: String,
    pub fields: Vec<FieldDescription>,
}

/// What a [`ReceiverDescription`] holds, as mathematical values.
pub struct ReceiverDescriptionView {
    pub name: Seq<char>,
    pub fields: Seq<FieldDescriptionView>,
}

impl View for ReceiverDescription {
    type V = ReceiverDescriptionView;

    open spec fn view(&self) -> ReceiverDescriptionView {
        ReceiverDescriptionView { name: self.name@, fields: views(self.fields@) }
    }
}

impl ReceiverDescription {
    /// The receiver with the given name and fields.
    pub fn new(name: &str, fields: Vec<FieldDescription>) -> (r: ReceiverDescription)
        ensures
            r@ == (ReceiverDescriptionView { name: name@, fields: views(fields@) }),
    {
        ReceiverDescription { name: String::from_str(name), fields }
    }
}

} // verus!
