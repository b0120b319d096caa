use crate::assembly_error::{AssemblyError, AssemblyErrorView};
use crate::text::{decimal, push_decimal};
use vstd::prelude::*;
use vstd::string::*;

verus! {

/// Width of a register field in a word, in bits.
pub const BITS: u32 = 4;

/// The bits of a register field, at the low end of a word.
pub const MASK: u32 = 15;

/// How many registers a field can tell apart.
pub const MAX_POSSIBLE_COUNT: u32 = 16;

/// The highest register number.
pub const MAX_VALUE: u32 = 15;

/// The number of one of the machine's registers.
#[derive(Debug, Copy, Clone, PartialEq, Eq, Structural)]
pub struct Register {
    register: u32,
}

impl View for Register {
    type V = nat;

    closed spec fn view(&self) -> nat {
        self.register as nat
    }
}

/// The error for a register number that no field can hold.
pub open spec fn out_of_range(register: u32) -> AssemblyErrorView {
    AssemblyErrorView::unplaced(
        "Register "@ + decimal(register as nat) + " out of range, expected 0-"@ + decimal(
            MAX_VALUE as nat,
        ),
    )
}

impl Register {
    /// The register with the given number.
    pub closed spec fn holding(register: nat) -> Register {
        Register { register: register as u32 }
    }

    /// A register's number fits its field.
    #[verifier::type_invariant]
    pub open spec fn wf(&self) -> bool {
        self@ <= MAX_VALUE
    }

    /// A register is the one that holds its own number.
    pub broadcast proof fn lemma_holding_view(self)
        ensures
            #[trigger] Register::holding(self@) == self,
    {
    }

    /// The register made for a number in range has that number.
    pub broadcast proof fn lemma_view_holding(register: nat)
        requires
            register <= MAX_VALUE,
        ensures
            #[trigger] Register::holding(register)@ == register,
    {
    }

    /// The register with the given number, where the number is in range.
    pub fn new(register: u32) -> (result: Result<Self, AssemblyError>)
        ensures
            match result {
                Ok(made) => register <= MAX_VALUE
                    && made@ == register
                    && made == Register::holding(register as nat),
                Err(error) => register > MAX_VALUE && error@ == out_of_range(register),
            },
    {
        Self::error(register)?;
        Ok(Self { register })
    }

    /// The register's number.
    pub fn register(&self) -> (register: u32)
        ensures
            register == self@,
            register <= MAX_VALUE,
    {
        proof {
            use_type_invariant(self);
        }
        self.register
    }

    /// Gives the register another number, or leaves it as it is where the
    /// number is out of range.
    pub fn set_register(&mut self, register: u32) -> (result: Result<(), AssemblyError>)
        ensures
            match result {
                Ok(_) => register <= MAX_VALUE
                    && final(self)@ == register
                    && *final(self) == Register::holding(register as nat),
                Err(error) => register > MAX_VALUE
                    && error@ == out_of_range(register)
                    && *final(self) == *old(self),
            },
    {
        Self::error(register)?;

        self.register = register;
        Ok(())
    }

    /// Tests a number against the range.
    fn error(register: u32) -> (result: Result<(), AssemblyError>)
        ensures
            match result {
                Ok(_) => register <= MAX_VALUE,
                Err(error) => register > MAX_VALUE && error@ == out_of_range(register),
            },
    {
        if register > MAX_VALUE {
            let mut description = String::from_str("Register ");
            push_decimal(&mut description, register);
            description.append(" out of range, expected 0-");
            push_decimal(&mut description, MAX_VALUE);
            Err(AssemblyError::new(description))
        } else {
            Ok(())
        }
    }
}

/// The facts that tie a register to its number.
pub broadcast group group_register {
    Register::lemma_holding_view,
    Register::lemma_view_holding,
}

} // verus!
