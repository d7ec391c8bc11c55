//! The secret itself: a name and the value stored under it.

use vstd::prelude::*;

verus! {

/// A name/value pair. The name identifies the secret; the value is the
/// plaintext that is kept under it.
#[derive(Debug, Clone)]
pub struct Secret {
    pub name: String,
    pub value: String,
}

impl Secret {
    /// The mathematical value of a secret: its name and its value as
    /// sequences of characters.
    pub open spec fn pair(&self) -> (Seq<char>, Seq<char>) {
        (self.name@, self.value@)
    }

    /// Builds a secret from its two parts.
    pub fn new(name: String, value: String) -> (s: Secret)
        ensures
            s.name@ == name@,
            s.value@ == value@,
            s.pair() == (name@, value@),
    {
        Secret { name, value }
    }
}

} // verus!
