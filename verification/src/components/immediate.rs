use crate::assembly_error::{AssemblyError, AssemblyErrorView};
use crate::text::{push_signed_decimal, signed_decimal};
use vstd::prelude::*;
use vstd::string::*;

verus! {

/// Width of the immediate field in a word, in bits.
pub const BITS: u32 = 8;

/// The bits of the immediate field, at the low end of a word.
pub const MASK: u32 = 255;

/// How many values the field can tell apart.
pub const MAX_POSSIBLE_COUNT: u32 = 256;

/// The highest value of the field.
pub const MAX_VALUE: u32 = 255;

/// The highest value that can be given with a sign.
pub const MAX_SIGNED_VALUE: i32 = 127;

/// The lowest value that can be given with a sign.
pub const MIN_SIGNED_VALUE: i32 = -128;

/// A constant written into an instruction.
///
/// Unlike the other operands an immediate turns no unsigned value away: one
/// that is too large for the field is reduced modulo the field's size.
#[derive(Debug, Copy, Clone, PartialEq, Eq, Structural)]
pub struct Immediate {
    immediate: u32,
}

impl View for Immediate {
    type V = nat;

    closed spec fn view(&self) -> nat {
        self.immediate as nat
    }
}

/// The bit pattern that the field holds for a value: the value modulo the
/// field's size, which for a negative value is its two's complement.
pub open spec fn wrapped(value: int) -> nat {
    (value % (MAX_POSSIBLE_COUNT as int)) as nat
}

/// Whether a value given with a sign fits the field.
pub open spec fn in_signed_range(immediate: int) -> bool {
    MIN_SIGNED_VALUE <= immediate <= MAX_SIGNED_VALUE
}

/// The error for a signed value that the field cannot hold.
pub open spec fn out_of_signed_range(immediate: i32) -> AssemblyErrorView {
    AssemblyErrorView::unplaced(
        "Immediate "@ + signed_decimal(immediate as int) + " out of range, expected "@
            + signed_decimal(MIN_SIGNED_VALUE as int) + "-"@ + signed_decimal(
            MAX_SIGNED_VALUE as int,
        ),
    )
}

impl Immediate {
    /// The immediate with the given bit pattern.
    pub closed spec fn holding(immediate: nat) -> Immediate {
        Immediate { immediate: immediate as u32 }
    }

    /// An immediate's bit pattern fits its field.
    #[verifier::type_invariant]
    pub open spec fn wf(&self) -> bool {
        self@ <= MAX_VALUE
    }

    /// An immediate is the one that holds its own bit pattern.
    pub broadcast proof fn lemma_holding_view(self)
        ensures
            #[trigger] Immediate::holding(self@) == self,
    {
    }

    /// The immediate made for a bit pattern in range has that bit pattern.
    pub broadcast proof fn lemma_view_holding(immediate: nat)
        requires
            immediate <= MAX_VALUE,
        ensures
            #[trigger] Immediate::holding(immediate)@ == immediate,
    {
    }

    /// Never fails: a value above the field's highest is reduced modulo the
    /// field's size.
    pub fn new(immediate: u32) -> (result: Result<Self, AssemblyError>)
        ensures
            result == Ok::<Self, AssemblyError>(Immediate::holding(wrapped(immediate as int))),
            result->Ok_0@ == wrapped(immediate as int),
    {
        Ok(Self { immediate: immediate % MAX_POSSIBLE_COUNT })
    }

    /// Takes a value from the signed range and keeps its two's-complement bit
    /// pattern.
    pub fn new_signed(immediate: i32) -> (result: Result<Self, AssemblyError>)
        ensures
            match result {
                Ok(made) => in_signed_range(immediate as int)
                    && made@ == wrapped(immediate as int)
                    && made == Immediate::holding(wrapped(immediate as int)),
                Err(error) => !in_signed_range(immediate as int)
                    && error@ == out_of_signed_range(immediate),
            },
    {
        Self::error_signed(immediate)?;
        Ok(Self { immediate: Self::pattern(immediate) })
    }

    /// The immediate's bit pattern, as an unsigned value.
    pub fn immediate(&self) -> (immediate: u32)
        ensures
            immediate == self@,
            immediate <= MAX_VALUE,
    {
        proof {
            use_type_invariant(self);
        }
        self.immediate
    }

    /// Never fails: a value above the field's highest is reduced modulo the
    /// field's size.
    pub fn set_immediate(&mut self, immediate: u32) -> (result: Result<(), AssemblyError>)
        ensures
            result is Ok,
            final(self)@ == wrapped(immediate as int),
            *final(self) == Immediate::holding(wrapped(immediate as int)),
    {
        self.immediate = immediate % MAX_POSSIBLE_COUNT;
        Ok(())
    }

    /// Takes a value from the signed range and keeps its two's-complement bit
    /// pattern, or leaves the immediate as it is where the value is out of
    /// range.
    pub fn set_immediate_signed(&mut self, immediate: i32) -> (result: Result<(), AssemblyError>)
        ensures
            match result {
                Ok(_) => in_signed_range(immediate as int)
                    && final(self)@ == wrapped(immediate as int)
                    && *final(self) == Immediate::holding(wrapped(immediate as int)),
                Err(error) => !in_signed_range(immediate as int)
                    && error@ == out_of_signed_range(immediate)
                    && *final(self) == *old(self),
            },
    {
        Self::error_signed(immediate)?;

        self.immediate = Self::pattern(immediate);
        Ok(())
    }

    /// The two's-complement bit pattern of a value from the signed range.
    fn pattern(immediate: i32) -> (pattern: u32)
        requires
            in_signed_range(immediate as int),
        ensures
            pattern == wrapped(immediate as int),
    {
        if immediate < 0 {
            (immediate + MAX_POSSIBLE_COUNT as i32) as u32
        } else {
            immediate as u32
        }
    }

    /// Tests a value against the signed range.
    fn error_signed(immediate: i32) -> (result: Result<(), AssemblyError>)
        ensures
            match result {
                Ok(_) => in_signed_range(immediate as int),
                Err(error) => !in_signed_range(immediate as int)
                    && error@ == out_of_signed_range(immediate),
            },
    {
        if immediate < MIN_SIGNED_VALUE || immediate > MAX_SIGNED_VALUE {
            let mut description = String::from_str("Immediate ");
            push_signed_decimal(&mut description, immediate);
            description.append(" out of range, expected ");
            push_signed_decimal(&mut description, MIN_SIGNED_VALUE);
            description.append("-");
            push_signed_decimal(&mut description, MAX_SIGNED_VALUE);
            Err(AssemblyError::new(description))
        } else {
            Ok(())
        }
    }
}

/// The facts that tie an immediate to its bit pattern.
pub broadcast group group_immediate {
    Immediate::lemma_holding_view,
    Immediate::lemma_view_holding,
}

} // verus!
