use crate::assembly_error::{AssemblyError, AssemblyErrorView};
use crate::text::{push_signed_decimal, signed_decimal};
use vstd::prelude::*;
use vstd::string::*;

verus! {

/// Width of the offset field in a word, in bits.
pub const BITS: u32 = 4;

/// The bits of the offset field, at the low end of a word.
pub const MASK: u32 = 15;

/// How many offsets the field can tell apart.
pub const MAX_POSSIBLE_COUNT: u32 = 16;

/// The highest bit pattern of the field, read as unsigned.
pub const MAX_VALUE: u32 = 15;

/// The farthest offset forwards.
pub const MAX_SIGNED_VALUE: i32 = 7;

/// The farthest offset backwards.
pub const MIN_SIGNED_VALUE: i32 = -8;

/// A signed distance from an address.
#[derive(Debug, Copy, Clone, PartialEq, Eq, Structural)]
pub struct Offset {
    offset: i32,
}

impl View for Offset {
    type V = int;

    closed spec fn view(&self) -> int {
        self.offset as int
    }
}

/// The error for an offset that no field can hold.
pub open spec fn out_of_range(offset: i32) -> AssemblyErrorView {
    AssemblyErrorView::unplaced(
        "Offset "@ + signed_decimal(offset as int) + " out of range, expected "@ + signed_decimal(
            MIN_SIGNED_VALUE as int,
        ) + "-"@ + signed_decimal(MAX_SIGNED_VALUE as int),
    )
}

/// Whether an offset fits its field.
pub open spec fn in_range(offset: int) -> bool {
    MIN_SIGNED_VALUE <= offset <= MAX_SIGNED_VALUE
}

impl Offset {
    /// The offset with the given value.
    pub closed spec fn holding(offset: int) -> Offset {
        Offset { offset: offset as i32 }
    }

    /// An offset fits its field.
    #[verifier::type_invariant]
    pub open spec fn wf(&self) -> bool {
        in_range(self@)
    }

    /// An offset is the one that holds its own value.
    pub broadcast proof fn lemma_holding_view(self)
        ensures
            #[trigger] Offset::holding(self@) == self,
    {
    }

    /// The offset made for a value in range has that value.
    pub broadcast proof fn lemma_view_holding(offset: int)
        requires
            in_range(offset),
        ensures
            #[trigger] Offset::holding(offset)@ == offset,
    {
    }

    /// The offset with the given value, where the value is in range.
    pub fn new(offset: i32) -> (result: Result<Self, AssemblyError>)
        ensures
            match result {
                Ok(made) => in_range(offset as int)
                    && made@ == offset
                    && made == Offset::holding(offset as int),
                Err(error) => !in_range(offset as int) && error@ == out_of_range(offset),
            },
    {
        Self::error(offset)?;
        Ok(Self { offset })
    }

    /// The offset's value.
    pub fn offset(&self) -> (offset: i32)
        ensures
            offset == self@,
            in_range(offset as int),
    {
        proof {
            use_type_invariant(self);
        }
        self.offset
    }

    /// Gives the offset another value, or leaves it as it is where the value
    /// is out of range.
    pub fn set_offset(&mut self, offset: i32) -> (result: Result<(), AssemblyError>)
        ensures
            match result {
                Ok(_) => in_range(offset as int)
                    && final(self)@ == offset
                    && *final(self) == Offset::holding(offset as int),
                Err(error) => !in_range(offset as int)
                    && error@ == out_of_range(offset)
                    && *final(self) == *old(self),
            },
    {
        Self::error(offset)?;

        self.offset = offset;
        Ok(())
    }

    /// Tests a value against the range.
    fn error(offset: i32) -> (result: Result<(), AssemblyError>)
        ensures
            match result {
                Ok(_) => in_range(offset as int),
                Err(error) => !in_range(offset as int) && error@ == out_of_range(offset),
            },
    {
        if offset < MIN_SIGNED_VALUE || offset > MAX_SIGNED_VALUE {
            let mut description = String::from_str("Offset ");
            push_signed_decimal(&mut description, offset);
            description.append(" out of range, expected ");
            push_signed_decimal(&mut description, MIN_SIGNED_VALUE);
            description.append("-");
            push_signed_decimal(&mut description, MAX_SIGNED_VALUE);
            Err(AssemblyError::new(description))
        } else {
            Ok(())
        }
    }
}

/// The facts that tie an offset to its value.
pub broadcast group group_offset {
    Offset::lemma_holding_view,
    Offset::lemma_view_holding,
}

} // verus!
