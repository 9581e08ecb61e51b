use vstd::prelude::*;

verus! {

/// The character that stands for "no character": a key without a shifted
/// form carries it as `shifted`, and a layout grid uses it for void cells.
pub const NO_CHAR: char = '\0';

/// Datatype for graph nodes representing a key on the keyboard.
#[derive(Clone, Copy, Debug)]
pub struct Key {
    /// Value of the key
    pub value: char,
    /// Value when shift is pressed, or `NO_CHAR` where the key has none
    pub shifted: char,
}

/// Two keys given as `(value, shifted)` pairs are the same key when their
/// values agree and, where both carry a shifted form, those agree too.
pub open spec fn same_key(a: (char, char), b: (char, char)) -> bool {
    &&& a.0 == b.0
    &&& (a.1 == NO_CHAR || b.1 == NO_CHAR || a.1 == b.1)
}

/// A key answers to a character when it is its value or its shifted form;
/// no key answers to `NO_CHAR`.
pub open spec fn answers_to(k: (char, char), c: char) -> bool {
    c != NO_CHAR && (k.0 == c || k.1 == c)
}

impl View for Key {
    type V = (char, char);

    open spec fn view(&self) -> (char, char) {
        (self.value, self.shifted)
    }
}

impl Key {
    /// Whether `val` is what this key produces with shift held.
    pub fn is_shifted(&self, val: char) -> (r: bool)
        ensures
            r == (self.shifted == val && val != NO_CHAR),
    {
        self.shifted == val && val != NO_CHAR
    }

    /// Whether `val` is what this key produces without shift.
    pub fn is_unshifted(&self, val: char) -> (r: bool)
        ensures
            r == (self.value == val && val != NO_CHAR),
    {
        self.value == val && val != NO_CHAR
    }
}

impl PartialEq for Key {
    fn eq(&self, other: &Key) -> (r: bool) {
        self.value == other.value && (self.shifted == NO_CHAR || other.shifted == NO_CHAR
            || self.shifted == other.shifted)
    }
}

impl vstd::std_specs::cmp::PartialEqSpecImpl for Key {
    open spec fn obeys_eq_spec() -> bool {
        true
    }

    open spec fn eq_spec(&self, other: &Key) -> bool {
        same_key(self@, other@)
    }
}

} // verus!
