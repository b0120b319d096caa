use crate::assembly_error::{AssemblyError, AssemblyErrorView};
use crate::text::{decimal, prefixed_binary, push_decimal, push_prefixed_binary};
use vstd::prelude::*;
use vstd::string::*;

verus! {

/// Width of the condition field in a word, in bits.
pub const BITS: u32 = 2;

/// The bits of a condition field, at the low end of a word.
pub const MASK: u32 = 3;

/// How many conditions the field can tell apart.
pub const MAX_POSSIBLE_COUNT: u32 = 4;

/// The highest number that stands for a condition.
pub const MAX_VALUE: u32 = 3;

/// The flag test that a branch makes.
#[derive(Debug, Copy, Clone, PartialEq, Eq, Structural)]
pub enum Condition {
    Zero,
    NotZero,
    Carry,
    NotCarry,
}

/// The error for a number that stands for no condition.
pub open spec fn unknown_condition(condition: u32) -> AssemblyErrorView {
    AssemblyErrorView::unplaced(
        "Unknown condition "@ + decimal(condition as nat) + " ("@ + prefixed_binary(
            condition as nat,
        ) + ")"@,
    )
}

impl Condition {
    /// The number that stands for this condition in a word.
    pub open spec fn spec_index(&self) -> u32 {
        match self {
            Condition::Zero => 0,
            Condition::NotZero => 1,
            Condition::Carry => 2,
            Condition::NotCarry => 3,
        }
    }

    /// The condition that a number stands for; `Zero` where it stands for none.
    pub open spec fn spec_from_index(condition: u32) -> Condition {
        if condition == 1 {
            Condition::NotZero
        } else if condition == 2 {
            Condition::Carry
        } else if condition == 3 {
            Condition::NotCarry
        } else {
            Condition::Zero
        }
    }

    /// Going to the number and back gives the same condition.
    pub broadcast proof fn lemma_index_round_trip(self)
        ensures
            #![trigger self.spec_index()]
            self.spec_index() <= MAX_VALUE,
            Condition::spec_from_index(self.spec_index()) == self,
    {
    }

    /// Going from a number in range to its condition and back gives the same
    /// number.
    pub broadcast proof fn lemma_from_index_round_trip(condition: u32)
        requires
            condition <= MAX_VALUE,
        ensures
            (#[trigger] Condition::spec_from_index(condition)).spec_index() == condition,
    {
    }

    /// The number that stands for this condition in a word.
    #[verifier::when_used_as_spec(spec_index)]
    pub fn index(&self) -> (index: u32)
        ensures
            index == self.spec_index(),
            index <= MAX_VALUE,
    {
        match self {
            Condition::Zero => 0,
            Condition::NotZero => 1,
            Condition::Carry => 2,
            Condition::NotCarry => 3,
        }
    }

    /// The condition that a number stands for, where it stands for one.
    pub fn from_index(condition: u32) -> (result: Result<Self, AssemblyError>)
        ensures
            match result {
                Ok(found) => condition <= MAX_VALUE && found == Condition::spec_from_index(
                    condition,
                ),
                Err(error) => condition > MAX_VALUE && error@ == unknown_condition(condition),
            },
    {
        match condition {
            0 => Ok(Condition::Zero),
            1 => Ok(Condition::NotZero),
            2 => Ok(Condition::Carry),
            3 => Ok(Condition::NotCarry),
            _ => {
                let mut description = String::from_str("Unknown condition ");
                push_decimal(&mut description, condition);
                description.append(" (");
                push_prefixed_binary(&mut description, condition);
                description.append(")");
                Err(AssemblyError::new(description))
            },
        }
    }
}

/// The facts that tie a condition to its number.
pub broadcast group group_condition {
    Condition::lemma_index_round_trip,
    Condition::lemma_from_index_round_trip,
}

} // verus!
