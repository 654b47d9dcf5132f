//! One attribute of a start tag, built a character at a time.

use vstd::prelude::*;

verus! {

/// What an [`Attribute`] holds, as plain sequences of characters.
pub struct AttributeView {
    pub name: Seq<char>,
    pub value: Seq<char>,
}

/// A name and a value, either of which may be empty.
#[derive(Debug, Clone, PartialEq, Eq)]
pub struct Attribute {
    name: String,
    value: String,
}

impl View for Attribute {
    type V = AttributeView;

    closed spec fn view(&self) -> AttributeView {
        AttributeView { name: self.name@, value: self.value@ }
    }
}

impl Attribute {
    /// An attribute whose name and value are both empty.
    pub fn new() -> (a: Self)
        ensures
            a@ == (AttributeView { name: Seq::empty(), value: Seq::empty() }),
    {
        Self { name: String::new(), value: String::new() }
    }

    /// Appends `c` to the name when `is_name` holds, to the value otherwise.
    pub fn add_char(&mut self, c: char, is_name: bool)
        ensures
            is_name ==> final(self)@ == (AttributeView {
                name: old(self)@.name.push(c),
                value: old(self)@.value,
            }),
            !is_name ==> final(self)@ == (AttributeView {
                name: old(self)@.name,
                value: old(self)@.value.push(c),
            }),
    {
        if is_name {
            self.name.push(c);
        } else {
            self.value.push(c);
        }
    }

    /// A copy of the name.
    pub fn name(&self) -> (s: String)
        ensures
            s@ == self@.name,
    {
        self.name.clone()
    }

    /// A copy of the value.
    pub fn value(&self) -> (s: String)
        ensures
            s@ == self@.value,
    {
        self.value.clone()
    }
}

} // verus!
