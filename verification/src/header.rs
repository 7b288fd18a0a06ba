//! Header fields.
use vstd::prelude::*;

verus! {

/// A field of an HTTP header.
#[derive(Debug)]
pub struct HeaderField {
    /// The name of the field.
    pub name: String,
    /// The value of the field.
    pub value: String,
}

impl View for HeaderField {
    type V = (Seq<char>, Seq<char>);

    open spec fn view(&self) -> (Seq<char>, Seq<char>) {
        (self.name@, self.value@)
    }
}

impl HeaderField {
    /// Makes a field.
    pub fn new(name: &str, value: &str) -> (field: Self)
        ensures
            field@ == (name@, value@),
    {
        HeaderField { name: name.to_owned(), value: value.to_owned() }
    }

    /// Returns the name of the field.
    pub fn name(&self) -> (name: &str)
        ensures
            name@ == self@.0,
    {
        self.name.as_str()
    }

    /// Returns the value of the field.
    pub fn value(&self) -> (value: &str)
        ensures
            value@ == self@.1,
    {
        self.value.as_str()
    }
}

/// The views of the fields in `fields`.
pub open spec fn field_views(fields: Seq<HeaderField>) -> Seq<(Seq<char>, Seq<char>)> {
    Seq::new(fields.len(), |i: int| fields[i]@)
}

/// The `Connection` header field.
#[derive(Debug, Clone, Copy)]
pub enum Connection {
    /// `Connection: close`: the connection ends with this response.
    Close,
}

impl Connection {
    /// What the field says.
    pub open spec fn spec_field(self) -> (Seq<char>, Seq<char>) {
        ("Connection"@, "close"@)
    }

    /// The header field.
    pub fn field(self) -> (field: HeaderField)
        ensures
            field@ == self.spec_field(),
    {
        HeaderField::new("Connection", "close")
    }
}

} // verus!
