//! One error type for everything that can go wrong around the bridge.

use vstd::prelude::*;

verus! {

/// What can be put into an [`ErrorBox`]: anything that can say in words
/// what went wrong.
pub trait ErrorBoxable {
    /// The words of the error.
    spec fn message(&self) -> Seq<char>;

    /// The words of the error.
    fn describe(&self) -> (r: String)
        ensures
            r@ == self.message(),
    ;
}

impl ErrorBoxable for String {
    open spec fn message(&self) -> Seq<char> {
        self@
    }

    fn describe(&self) -> (r: String) {
        self.clone()
    }
}

impl<'a> ErrorBoxable for &'a str {
    open spec fn message(&self) -> Seq<char> {
        self@
    }

    fn describe(&self) -> (r: String) {
        (*self).to_owned()
    }
}

/// An error of any kind, kept as its words.
#[derive(Debug, PartialEq, Eq)]
pub struct ErrorBox(pub String);

impl View for ErrorBox {
    type V = Seq<char>;

    open spec fn view(&self) -> Seq<char> {
        self.0@
    }
}

impl ErrorBox {
    /// The words of the error.
    pub fn to_string(&self) -> (r: String)
        ensures
            r@ == self@,
    {
        self.0.clone()
    }

    /// The box that holds the words of `other`.
    pub fn from<T: ErrorBoxable>(other: T) -> (r: ErrorBox)
        ensures
            r@ == other.message(),
    {
        ErrorBox(other.describe())
    }
}

/// Puts an error into a box.
pub fn errorbox<T: ErrorBoxable>(err: T) -> (r: ErrorBox)
    ensures
        r@ == err.message(),
{
    ErrorBox::from(err)
}

} // verus!
