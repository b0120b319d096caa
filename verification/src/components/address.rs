use crate::assembly_error::{AssemblyError, AssemblyErrorView};
use crate::text::{decimal, push_decimal};
use vstd::prelude::*;
use vstd::string::*;

verus! {

/// Width of the address field in a word, in bits.
pub const BITS: u32 = 10;

/// The bits of the address field, at the low end of a word.
pub const MASK: u32 = 1023;

/// How many addresses there are: the size of the address space.
pub const MAX_POSSIBLE_COUNT: u32 = 1024;

/// The highest address.
pub const MAX_VALUE: u32 = 1023;

/// The place of an instruction in program memory.
#[derive(Debug, Copy, Clone, PartialEq, Eq, Structural)]
pub struct Address {
    address: u32,
}

impl View for Address {
    type V = nat;

    closed spec fn view(&self) -> nat {
        self.address as nat
    }
}

/// The error for an address outside the address space.
pub open spec fn out_of_range(address: u32) -> AssemblyErrorView {
    AssemblyErrorView::unplaced(
        "Address "@ + decimal(address as nat) + " out of range, expected 0-"@ + decimal(
            MAX_VALUE as nat,
        ),
    )
}

impl Address {
    /// The address with the given value.
    pub closed spec fn holding(address: nat) -> Address {
        Address { address: address as u32 }
    }

    /// An address lies in the address space.
    #[verifier::type_invariant]
    pub open spec fn wf(&self) -> bool {
        self@ <= MAX_VALUE
    }

    /// An address is the one that holds its own value.
    pub broadcast proof fn lemma_holding_view(self)
        ensures
            #[trigger] Address::holding(self@) == self,
    {
    }

    /// The address made for a value in range has that value.
    pub broadcast proof fn lemma_view_holding(address: nat)
        requires
            address <= MAX_VALUE,
        ensures
            #[trigger] Address::holding(address)@ == address,
    {
    }

    /// The address with the given value, where the value is in range.
    pub fn new(address: u32) -> (result: Result<Self, AssemblyError>)
        ensures
            match result {
                Ok(made) => address <= MAX_VALUE
                    && made@ == address
                    && made == Address::holding(address as nat),
                Err(error) => address > MAX_VALUE && error@ == out_of_range(address),
            },
    {
        Self::error(address)?;
        Ok(Self { address })
    }

    /// The address's value.
    pub fn address(&self) -> (address: u32)
        ensures
            address == self@,
            address <= MAX_VALUE,
    {
        proof {
            use_type_invariant(self);
        }
        self.address
    }

    /// Moves the address, or leaves it as it is where the new value is out
    /// of range.
    pub fn set_address(&mut self, address: u32) -> (result: Result<(), AssemblyError>)
        ensures
            match result {
                Ok(_) => address <= MAX_VALUE
                    && final(self)@ == address
                    && *final(self) == Address::holding(address as nat),
                Err(error) => address > MAX_VALUE
                    && error@ == out_of_range(address)
                    && *final(self) == *old(self),
            },
    {
        Self::error(address)?;

        self.address = address;
        Ok(())
    }

    /// Tests a value against the range.
    fn error(address: u32) -> (result: Result<(), AssemblyError>)
        ensures
            match result {
                Ok(_) => address <= MAX_VALUE,
                Err(error) => address > MAX_VALUE && error@ == out_of_range(address),
            },
    {
        if address > MAX_VALUE {
            let mut description = String::from_str("Address ");
            push_decimal(&mut description, address);
            description.append(" out of range, expected 0-");
            push_decimal(&mut description, MAX_VALUE);
            Err(AssemblyError::new(description))
        } else {
            Ok(())
        }
    }
}

/// The facts that tie an address to its value.
pub broadcast group group_address {
    Address::lemma_holding_view,
    Address::lemma_view_holding,
}

} // verus!
