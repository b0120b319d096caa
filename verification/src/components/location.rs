use crate::assembly_error::{outcome, AssemblyError, AssemblyErrorView};
use crate::components::address;
use crate::components::address::Address;
use crate::components::offset::Offset;
use crate::Labels;
use vstd::prelude::*;
use vstd::string::*;

verus! {

/// Where a jump, branch or call goes, as the source names it: an address, a
/// distance from the instruction itself, or a label.
#[derive(Debug, Clone, PartialEq, Eq)]
pub enum Location {
    Address(Address),
    Offset(Offset),
    Label(String),
}

/// The error for a label that the symbol table does not hold.
pub open spec fn unknown_label(label: Seq<char>) -> AssemblyErrorView {
    AssemblyErrorView::unplaced("Unknown label \""@ + label + "\""@)
}

/// The address that lies `offset` away from `current_address`, where the
/// address space is a ring: one step back from its first address is its last.
pub open spec fn displaced(current_address: u32, offset: int) -> u32 {
    ((current_address + offset) % (address::MAX_POSSIBLE_COUNT as int)) as u32
}

/// Every step ends inside the address space, and two steps in a row end
/// where one step of their sum ends.
pub proof fn lemma_displaced_ring(current_address: u32, first: int, second: int)
    ensures
        displaced(current_address, first) <= address::MAX_VALUE,
        displaced(displaced(current_address, first), second) == displaced(
            current_address,
            first + second,
        ),
{
}

impl Location {
    /// The address that this location stands for in the instruction at
    /// `current_address`, or the error for a label that `labels` lacks.
    pub open spec fn resolved(&self, current_address: u32, labels: Map<Seq<char>, u32>) -> Result<
        u32,
        AssemblyErrorView,
    > {
        match self {
            Location::Address(address) => Ok(address@ as u32),
            Location::Offset(offset) => Ok(displaced(current_address, offset@)),
            Location::Label(label) => if labels.contains_key(label@) {
                Ok(labels[label@])
            } else {
                Err(unknown_label(label@))
            },
        }
    }

    /// Whether the location names its address outright.
    pub open spec fn is_absolute(&self) -> bool {
        self is Address
    }

    /// Whether the operand inside is in range.
    pub open spec fn wf(&self) -> bool {
        match self {
            Location::Address(address) => address.wf(),
            Location::Offset(offset) => offset.wf(),
            Location::Label(_) => true,
        }
    }

    /// What a location resolves to depends on the current address only as far
    /// as the address space goes: two addresses that are the same modulo its
    /// size give the same result.
    pub proof fn lemma_address_modulo(self, first: u32, second: u32, labels: Map<Seq<char>, u32>)
        requires
            first % address::MAX_POSSIBLE_COUNT == second % address::MAX_POSSIBLE_COUNT,
        ensures
            self.resolved(first, labels) == self.resolved(second, labels),
    {
        if let Location::Offset(offset) = self {
            assert(displaced(first, offset@) == displaced(second, offset@));
        }
    }

    /// Resolves the location for the instruction at `current_address`. It
    /// fails only for a label that `labels` lacks.
    pub fn get_address(&self, current_address: u32, labels: &Labels) -> (result: Result<
        u32,
        AssemblyError,
    >)
        ensures
            outcome(result) == self.resolved(current_address, labels@),
    {
        match self {
            Location::Address(address) => Ok(address.address()),
            Location::Offset(offset) => {
                let address_signed: i64 = current_address as i64 + offset.offset() as i64;
                let address: i64 = if address_signed < 0 {
                    address_signed + address::MAX_POSSIBLE_COUNT as i64
                } else {
                    address_signed % address::MAX_POSSIBLE_COUNT as i64
                };
                Ok(address as u32)
            },
            Location::Label(label) => {
                let result = labels.get(label.as_str());
                match result {
                    Some(value) => Ok(*value),
                    None => {
                        let mut description = String::from_str("Unknown label \"");
                        description.append(label.as_str());
                        description.append("\"");
                        Err(AssemblyError::new(description))
                    },
                }
            },
        }
    }
}

} // verus!
