use crate::assembly_error::{views, AssemblyError, AssemblyErrorView};
use crate::instruction::Instruction;
use crate::{Binary, BinaryVec, InstructionVec, Labels};
use vstd::prelude::*;

verus! {

/// What became of the items of a program, one by one and in program order:
/// the value that each one gave, or the error that it met.
pub type Outcomes<T> = Seq<Result<T, AssemblyErrorView>>;

/// The errors among the outcomes, in program order, each at the place of its
/// item, counted from one. A place is a `u32`: in a program that is longer
/// than a `u32` can count, the count starts over.
pub open spec fn failures<T>(outcomes: Outcomes<T>) -> Seq<AssemblyErrorView>
    decreases outcomes.len(),
{
    if outcomes.len() == 0 {
        Seq::empty()
    } else {
        let before = failures(outcomes.drop_last());
        match outcomes.last() {
            Ok(_) => before,
            Err(error) => before.push(error.at(outcomes.len() as u32)),
        }
    }
}

/// The values of the outcomes, in program order. It stands for the whole
/// program only where no outcome is an error.
pub open spec fn values<T>(outcomes: Outcomes<T>) -> Seq<T> {
    Seq::new(outcomes.len(), |at: int| outcomes[at]->Ok_0)
}

/// All or nothing: every value where no item failed, else every error and no
/// value.
pub open spec fn collected<T>(outcomes: Outcomes<T>) -> Result<Seq<T>, Seq<AssemblyErrorView>> {
    if failures(outcomes).len() == 0 {
        Ok(values(outcomes))
    } else {
        Err(failures(outcomes))
    }
}

/// The outcome of encoding each instruction as standing at its own place in
/// the program, counted from zero and cut to a `u32`.
pub open spec fn encodings(instructions: Seq<Instruction>, labels: Map<Seq<char>, u32>) -> Outcomes<
    Binary,
> {
    Seq::new(instructions.len(), |at: int| instructions[at].encoded(at as u32, labels))
}

/// The outcome of decoding each word.
pub open spec fn decodings(binary: Seq<Binary>) -> Outcomes<Instruction> {
    Seq::new(binary.len(), |at: int| Instruction::decoded(binary[at]))
}

/// What a pass over a program returned, with vectors as sequences and errors
/// as views.
pub open spec fn pass_outcome<T>(result: Result<Vec<T>, Vec<AssemblyError>>) -> Result<
    Seq<T>,
    Seq<AssemblyErrorView>,
> {
    match result {
        Ok(values) => Ok(values@),
        Err(errors) => Err(views(errors@)),
    }
}

/// No item failed exactly where the list of failures is empty.
pub proof fn lemma_failures_empty<T>(outcomes: Outcomes<T>)
    ensures
        failures(outcomes).len() == 0 <==> forall|at: int|
            0 <= at < outcomes.len() ==> (#[trigger] outcomes[at]) is Ok,
    decreases outcomes.len(),
{
    if outcomes.len() > 0 {
        let front = outcomes.drop_last();
        lemma_failures_empty(front);
        assert(forall|at: int| 0 <= at < front.len() ==> front[at] == outcomes[at]);
        if failures(outcomes).len() == 0 {
            assert forall|at: int| 0 <= at < outcomes.len() implies (#[trigger] outcomes[at]) is Ok by {
                if at < front.len() {
                    assert(front[at] is Ok);
                }
            }
        }
        if forall|at: int| 0 <= at < outcomes.len() ==> (#[trigger] outcomes[at]) is Ok {
            assert(outcomes.last() is Ok);
            assert forall|at: int| 0 <= at < front.len() implies (#[trigger] front[at]) is Ok by {
                assert(outcomes[at] is Ok);
            }
        }
    }
}

/// Whether `failure` is the error of one of the items, at that item's place
/// counted from one.
pub open spec fn is_failure_of<T>(failure: AssemblyErrorView, outcomes: Outcomes<T>) -> bool {
    &&& failure.address is Some
    &&& 1 <= failure.rank() <= outcomes.len()
    &&& outcomes[failure.rank() - 1] is Err
    &&& outcomes[failure.rank() - 1]->Err_0.at(failure.rank() as u32) == failure
}

/// The list of failures holds the error of each failing item, once, at the
/// item's place counted from one, and the places go up along the list.
pub proof fn lemma_failures_in_order<T>(outcomes: Outcomes<T>)
    requires
        outcomes.len() <= u32::MAX,
    ensures
        failures(outcomes).len() <= outcomes.len(),
        forall|k: int|
            0 <= k < failures(outcomes).len() ==> is_failure_of(
                #[trigger] failures(outcomes)[k],
                outcomes,
            ),
        forall|j: int, k: int|
            0 <= j < k < failures(outcomes).len() ==> (#[trigger] failures(outcomes)[j]).rank() < (
            #[trigger] failures(outcomes)[k]).rank(),
        forall|at: int|
            0 <= at < outcomes.len() && (#[trigger] outcomes[at]) is Err ==> exists|k: int|
                0 <= k < failures(outcomes).len() && #[trigger] failures(outcomes)[k]
                    == outcomes[at]->Err_0.at((at + 1) as u32),
    decreases outcomes.len(),
{
    if outcomes.len() > 0 {
        let front = outcomes.drop_last();
        let before = failures(front);
        let after = failures(outcomes);
        lemma_failures_in_order(front);
        assert(forall|at: int| 0 <= at < front.len() ==> front[at] == outcomes[at]);
        assert forall|k: int| 0 <= k < before.len() implies #[trigger] after[k] == before[k]
            && after[k].rank() < outcomes.len() by {
            assert(is_failure_of(before[k], front));
        }
        assert forall|at: int| 0 <= at < outcomes.len() && (#[trigger] outcomes[at]) is Err implies exists|
            k: int,
        |
            0 <= k < after.len() && #[trigger] after[k] == outcomes[at]->Err_0.at(
                (at + 1) as u32,
            ) by {
            if at < front.len() {
                assert(front[at] is Err);
                let k = choose|k: int|
                    0 <= k < before.len() && #[trigger] before[k] == front[at]->Err_0.at(
                        (at + 1) as u32,
                    );
                assert(after[k] == before[k]);
            } else {
                assert(after[after.len() - 1] == outcomes[at]->Err_0.at((at + 1) as u32));
            }
        }
    }
}

/// A program whose instructions name no label and no offset can always be
/// encoded, and decoding its words gives the same program back.
pub proof fn lemma_program_round_trip(instructions: Seq<Instruction>, labels: Map<Seq<char>, u32>)
    requires
        forall|at: int| 0 <= at < instructions.len() ==> (#[trigger] instructions[at]).wf(),
        forall|at: int| 0 <= at < instructions.len() ==> (#[trigger] instructions[at]).is_settled(),
    ensures
        collected(encodings(instructions, labels)) is Ok,
        collected(decodings(collected(encodings(instructions, labels))->Ok_0)) == Ok::<
            Seq<Instruction>,
            Seq<AssemblyErrorView>,
        >(instructions),
{
    let encoded = encodings(instructions, labels);
    assert forall|at: int| 0 <= at < encoded.len() implies (#[trigger] encoded[at]) is Ok by {
        instructions[at].lemma_round_trip(at as u32, labels);
    }
    lemma_failures_empty(encoded);
    let words = values(encoded);
    let decoded = decodings(words);
    assert forall|at: int| 0 <= at < decoded.len() implies (#[trigger] decoded[at]) == Ok::<
        Instruction,
        AssemblyErrorView,
    >(instructions[at]) by {
        instructions[at].lemma_round_trip(at as u32, labels);
    }
    lemma_failures_empty(decoded);
    assert(values(decoded) =~= instructions);
}

/// Encodes a program. The instruction at place `at`, counted from zero, is
/// encoded as standing at address `at`.
///
/// Every instruction is tried, whatever became of those before it. Where none
/// fails the result is the words, one for each instruction and in the same
/// order. Where any fails the result is the errors alone, in program order,
/// each with the place of its instruction counted from one.
pub fn instructions_to_binary(instructions: &InstructionVec, labels: &Labels) -> (result: Result<
    BinaryVec,
    Vec<AssemblyError>,
>)
    ensures
        pass_outcome(result) == collected(encodings(instructions@, labels@)),
{
    let mut errors: Vec<AssemblyError> = Vec::new();
    let mut binary: BinaryVec = Vec::new();
    let ghost outcomes = encodings(instructions@, labels@);

    let mut i: usize = 0;
    while i < instructions.len()
        invariant
            i <= instructions.len(),
            outcomes == encodings(instructions@, labels@),
            binary.len() == i,
            forall|at: int|
                0 <= at < i && (#[trigger] outcomes[at]) is Ok ==> outcomes[at]->Ok_0 == binary[at],
            views(errors@) == failures(outcomes.take(i as int)),
        decreases instructions.len() - i,
    {
        let ghost errors_before = errors@;
        let result = instructions[i].binary(#[verifier::truncate] (i as u32), labels);
        match result {
            Ok(word) => {
                binary.push(word);
            },
            Err(error) => {
                let mut error = error;
                error.address = Some(#[verifier::truncate] ((i + 1) as u32));
                errors.push(error);
                binary.push(0);
                assert(views(errors@) == views(errors_before).push(error@));
            },
        }
        assert(outcomes.take(i + 1).drop_last() == outcomes.take(i as int));
        i += 1;
    }
    assert(outcomes.take(i as int) == outcomes);

    if !errors.is_empty() {
        return Err(errors);
    }
    proof {
        lemma_failures_empty(outcomes);
    }
    assert(binary@ == values(outcomes));

    Ok(binary)
}

/// Decodes a program, word by word.
///
/// Every word is tried, whatever became of those before it, and a word that
/// stood for no instruction would be reported at its place, counted from one,
/// with no instruction returned at all. With this instruction set every word
/// stands for an instruction, so the result is always the instructions, one
/// for each word and in the same order.
pub fn binary_to_instructions(binary: &BinaryVec) -> (result: Result<
    InstructionVec,
    Vec<AssemblyError>,
>)
    ensures
        pass_outcome(result) == collected(decodings(binary@)),
        result is Ok,
{
    let mut errors: Vec<AssemblyError> = Vec::new();
    let mut instructions: InstructionVec = Vec::new();
    let ghost outcomes = decodings(binary@);

    let mut i: usize = 0;
    while i < binary.len()
        invariant
            i <= binary.len(),
            outcomes == decodings(binary@),
            instructions.len() == i,
            forall|at: int|
                0 <= at < i && (#[trigger] outcomes[at]) is Ok ==> outcomes[at]->Ok_0
                    == instructions[at],
            views(errors@) == failures(outcomes.take(i as int)),
        decreases binary.len() - i,
    {
        let ghost errors_before = errors@;
        let result = Instruction::instruction(binary[i]);
        match result {
            Ok(instruction) => {
                instructions.push(instruction);
            },
            Err(error) => {
                let mut error = error;
                error.address = Some(#[verifier::truncate] ((i + 1) as u32));
                errors.push(error);
                instructions.push(Instruction::NoOperation);
                assert(views(errors@) == views(errors_before).push(error@));
            },
        }
        assert(outcomes.take(i + 1).drop_last() == outcomes.take(i as int));
        i += 1;
    }
    assert(outcomes.take(i as int) == outcomes);
    proof {
        assert forall|at: int| 0 <= at < outcomes.len() implies (#[trigger] outcomes[at]) is Ok by {
            Instruction::lemma_decoded_total(binary[at]);
        }
        lemma_failures_empty(outcomes);
    }

    if !errors.is_empty() {
        return Err(errors);
    }
    assert(instructions@ == values(outcomes));

    Ok(instructions)
}

} // verus!
