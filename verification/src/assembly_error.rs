use crate::text::{decimal, push_decimal};
use std::cmp::Ordering;
use vstd::prelude::*;
use vstd::string::*;

verus! {

/// What went wrong with one instruction or word, and where.
///
/// `address` is the place of the item in its program, counted from one; an
/// error that belongs to no place in a program has none.
#[derive(Debug, Clone, PartialEq, Eq)]
pub struct AssemblyError {
    pub description: String,
    pub address: Option<u32>,
}

/// An `AssemblyError` with its text as a sequence of characters.
pub struct AssemblyErrorView {
    pub description: Seq<char>,
    pub address: Option<u32>,
}

impl View for AssemblyError {
    type V = AssemblyErrorView;

    open spec fn view(&self) -> AssemblyErrorView {
        AssemblyErrorView { description: self.description@, address: self.address }
    }
}

impl AssemblyErrorView {
    /// An error without a place.
    pub open spec fn unplaced(description: Seq<char>) -> AssemblyErrorView {
        AssemblyErrorView { description, address: None }
    }

    /// The same error at the given place.
    pub open spec fn at(self, address: u32) -> AssemblyErrorView {
        AssemblyErrorView { description: self.description, address: Some(address) }
    }

    /// Where the error stands among others: at its place, or before every
    /// place where it has none.
    pub open spec fn rank(self) -> int {
        match self.address {
            Some(address) => address as int,
            None => -1,
        }
    }

    /// The line that shows this error to a reader: the description, behind
    /// its place in square brackets where it has one.
    pub open spec fn rendered(self) -> Seq<char> {
        match self.address {
            Some(address) => "[Address "@ + decimal(address as nat) + "] "@ + self.description,
            None => self.description,
        }
    }
}

/// A result with its error, if it holds one, as a view.
pub open spec fn outcome<T>(result: Result<T, AssemblyError>) -> Result<T, AssemblyErrorView> {
    match result {
        Ok(value) => Ok(value),
        Err(error) => Err(error@),
    }
}

/// The views of a list of errors, in the same order.
pub open spec fn views(errors: Seq<AssemblyError>) -> Seq<AssemblyErrorView> {
    errors.map_values(|error: AssemblyError| error@)
}

impl AssemblyError {
    /// An error that belongs to no place in a program.
    pub fn new(description: String) -> (error: Self)
        ensures
            error.description == description,
            error.address is None,
    {
        Self { description, address: None }
    }

    /// An error at the given place.
    pub fn new_address(description: String, address: u32) -> (error: Self)
        ensures
            error.description == description,
            error.address == Some(address),
    {
        Self { description, address: Some(address) }
    }

    /// The error as one line of text.
    pub fn to_text(&self) -> (line: String)
        ensures
            line@ == self@.rendered(),
    {
        match self.address {
            Some(address) => {
                let mut line = String::from_str("[Address ");
                push_decimal(&mut line, address);
                line.append("] ");
                line.append(self.description.as_str());
                line
            },
            None => self.description.clone(),
        }
    }
}

/// Errors are ordered by their place alone, whatever they say: one without a
/// place comes before every placed one, and two placed ones compare as their
/// places do.
impl PartialOrd for AssemblyError {
    fn partial_cmp(&self, other: &Self) -> (order: Option<Ordering>) {
        match (self.address, other.address) {
            (None, None) => Some(Ordering::Equal),
            (None, Some(_)) => Some(Ordering::Less),
            (Some(_), None) => Some(Ordering::Greater),
            (Some(left), Some(right)) => if left < right {
                Some(Ordering::Less)
            } else if left == right {
                Some(Ordering::Equal)
            } else {
                Some(Ordering::Greater)
            },
        }
    }
}

impl vstd::std_specs::cmp::PartialOrdSpecImpl for AssemblyError {
    open spec fn obeys_partial_cmp_spec() -> bool {
        true
    }

    open spec fn partial_cmp_spec(&self, other: &Self) -> Option<Ordering> {
        if self@.rank() < other@.rank() {
            Some(Ordering::Less)
        } else if self@.rank() == other@.rank() {
            Some(Ordering::Equal)
        } else {
            Some(Ordering::Greater)
        }
    }
}

} // verus!
