//! The textual identity of a sample: `"<dataset-name>:<path>"`.

use vstd::prelude::*;
use vstd::string::StringExecFns;

verus! {

/// The unique identifier of a sample inside one evaluation run.
///
/// It is created when a sample is loaded and never mutated afterwards;
/// equality is plain string equality.
#[derive(Debug, PartialEq, Eq)]
pub struct Identifier {
    text: String,
}

impl View for Identifier {
    type V = Seq<char>;

    closed spec fn view(&self) -> Seq<char> {
        self.text@
    }
}

impl Identifier {
    /// Builds the identifier of the sample at `path` inside the dataset
    /// called `dataset`: the two parts joined by a single colon.
    pub fn from_path(dataset: &str, path: &str) -> (r: Identifier)
        ensures
            r@ == dataset@ + ":"@ + path@,
    {
        let mut text = dataset.to_owned();
        text.append(":");
        text.append(path);
        Identifier { text }
    }

    /// The identifier as a borrowed string.
    pub fn as_str(&self) -> (r: &str)
        ensures
            r@ == self@,
    {
        self.text.as_str()
    }
}

impl Clone for Identifier {
    fn clone(&self) -> (r: Self)
        ensures
            r == *self,
    {
        Identifier { text: self.text.clone() }
    }
}

impl Identifier {
    /// Wraps an already-formatted identifier text.
    pub fn from(text: &str) -> (r: Identifier)
        ensures
            r@ == text@,
    {
        Identifier { text: text.to_owned() }
    }
}

} // verus!
