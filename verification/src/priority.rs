//! The priority that a transaction pays for.
use crate::transaction::{
    transaction_in, transaction_sanitizes, CompiledInstruction, InstructionView, Pubkey,
    TransactionView, VersionedTransaction,
};
use solana_program_runtime::compute_budget::ComputeBudget;
use solana_sdk::instruction::CompiledInstruction as SdkInstruction;
use solana_sdk::borsh0_10::try_from_slice_unchecked;
use solana_sdk::compute_budget::ComputeBudgetInstruction;
use vstd::prelude::*;

verus! {

/// Compute units that a transaction is taken to ask for if it asks for none.
pub const DEFAULT_INSTRUCTION_COMPUTE_UNIT_LIMIT: u32 = 200_000;

/// Most compute units that a transaction can be granted.
pub const MAX_COMPUTE_UNIT_LIMIT: u32 = 1_400_000;

/// What a transaction pays for priority, and what it may compute.
#[derive(Clone, Copy, Debug, PartialEq, Eq, Structural)]
pub struct PriorityDetails {
    pub fee: u64,
    pub cu_limit: u32,
    pub priority: u64,
}

/// The compute unit limit that an instruction's data asks for: the data begins
/// with the instruction's number and the limit in little-endian order.
pub open spec fn unit_limit_request(data: Seq<u8>) -> Option<u32> {
    if data.len() >= 5 && data[0] == 2 {
        Some((data[1] + 0x100 * data[2] + 0x1_0000 * data[3] + 0x100_0000 * data[4]) as u32)
    } else {
        None
    }
}

/// Calls `try_from_slice_unchecked` of `solana_sdk` for a compute budget
/// instruction. The call reads one byte for the variant, 2 for a compute unit
/// limit, then the limit in four little-endian bytes, and does not mind bytes
/// after them.
#[verifier::external_body]
fn requested_unit_limit(data: &Vec<u8>) -> (r: Option<u32>)
    ensures
        r == unit_limit_request(data@),
{
    match try_from_slice_unchecked(data) {
        Ok(ComputeBudgetInstruction::SetComputeUnitLimit(limit)) => Some(limit),
        _ => None,
    }
}

/// Instructions with the addresses of their programs, by their views.
pub open spec fn program_views(instructions: Seq<(Pubkey, CompiledInstruction)>) -> Seq<
    (Seq<u8>, InstructionView),
> {
    instructions.map_values(|entry: (Pubkey, CompiledInstruction)| (entry.0@, entry.1@))
}

/// What the runtime's compute budget makes of a list of instructions: the fee and
/// the priority, unless it refuses them, and how many instructions it looked at.
pub uninterp spec fn budget_processing(
    compute_unit_limit: u64,
    instructions: Seq<(Seq<u8>, InstructionView)>,
    support_request_units_deprecated: bool,
    support_set_loaded_accounts_data_size_limit: bool,
) -> (Option<(u64, u64)>, nat);

/// Counts one instruction more.
fn count_one(count: &mut usize)
    ensures
        *final(count) == if *old(count) < usize::MAX {
            *old(count) + 1
        } else {
            *old(count) as int
        },
{
    if *count < usize::MAX {
        *count = *count + 1;
    }
}

/// Calls `ComputeBudget::process_instructions` of `solana_program_runtime`, which
/// takes one instruction after the other until it refuses one, and reads the fee
/// and the priority off the details that it gives. When it succeeds it has looked
/// at all instructions.
#[verifier::external_body]
fn process_instructions(
    compute_unit_limit: u64,
    instructions: &Vec<(Pubkey, CompiledInstruction)>,
    deprecated: bool,
    data_size: bool,
) -> (r: (Option<(u64, u64)>, usize))
    ensures
        (r.0, r.1 as nat) == budget_processing(
            compute_unit_limit,
            program_views(instructions@),
            deprecated,
            data_size,
        ),
        r.1 <= instructions.len(),
        r.0 is Some ==> r.1 == instructions.len(),
{
    let list: Vec<_> = instructions.iter().map(|(p, i)| (p.bytes.into(), SdkInstruction {
        program_id_index: i.program_id_index,
        accounts: i.accounts.clone(),
        data: i.data.clone(),
    })).collect();
    let mut seen: usize = 0;
    let entries = list.iter().map(|(p, i)| {
        count_one(&mut seen);
        (p, i)
    });
    let mut budget = ComputeBudget::new(compute_unit_limit);
    let details = budget.process_instructions(entries, deprecated, data_size).ok();
    (details.map(|d| (d.get_fee(), d.get_priority())), seen)
}

/// The compute unit limit after a list of instructions: what the last request
/// among them asks for, capped, or the default if there is none.
pub open spec fn unit_limit_after(instructions: Seq<(Seq<u8>, InstructionView)>) -> u32
    decreases instructions.len(),
{
    if instructions.len() == 0 {
        DEFAULT_INSTRUCTION_COMPUTE_UNIT_LIMIT
    } else {
        match unit_limit_request(instructions.last().1.data) {
            Some(limit) => if limit <= MAX_COMPUTE_UNIT_LIMIT {
                limit
            } else {
                MAX_COMPUTE_UNIT_LIMIT
            },
            None => unit_limit_after(instructions.drop_last()),
        }
    }
}

/// The details of a transaction with these instructions, where the compute budget
/// came to `outcome` after it had looked at the first `seen` of them.
pub open spec fn details_after(
    instructions: Seq<(Seq<u8>, InstructionView)>,
    outcome: Option<(u64, u64)>,
    seen: int,
) -> PriorityDetails {
    PriorityDetails {
        fee: match outcome {
            Some((fee, _)) => fee,
            None => 0,
        },
        cu_limit: unit_limit_after(instructions.take(seen)),
        priority: match outcome {
            Some((_, priority)) => priority,
            None => 0,
        },
    }
}

/// The instructions of a transaction, each with the address of its program.
pub open spec fn program_instructions(tx: TransactionView) -> Seq<(Seq<u8>, InstructionView)> {
    tx.instructions.map_values(
        |i: InstructionView| (tx.account_keys[i.program_id_index as int], i),
    )
}

/// The priority details of an encoded transaction.
pub open spec fn priority_details_of(encoded: Seq<u8>) -> PriorityDetails {
    if transaction_sanitizes(encoded) {
        let instructions = program_instructions(transaction_in(encoded));
        let (outcome, seen) = budget_processing(
            DEFAULT_INSTRUCTION_COMPUTE_UNIT_LIMIT as u64,
            instructions,
            true,
            true,
        );
        details_after(instructions, outcome, seen as int)
    } else {
        PriorityDetails {
            fee: 0,
            cu_limit: DEFAULT_INSTRUCTION_COMPUTE_UNIT_LIMIT,
            priority: 0,
        }
    }
}

/// The details of a transaction with these instructions, where the compute budget
/// came to `outcome` after it had looked at the first `seen` of them.
pub fn priority_details(
    instructions: &Vec<(Pubkey, CompiledInstruction)>,
    outcome: Option<(u64, u64)>,
    seen: usize,
) -> (r: PriorityDetails)
    requires
        seen <= instructions.len(),
    ensures
        r == details_after(program_views(instructions@), outcome, seen as int),
{
    let ghost views = program_views(instructions@);
    let mut cu_limit: u32 = DEFAULT_INSTRUCTION_COMPUTE_UNIT_LIMIT;
    for i in 0..seen
        invariant
            seen <= instructions.len(),
            views == program_views(instructions@),
            cu_limit == unit_limit_after(views.take(i as int)),
    {
        assert(views.take(i + 1).drop_last() =~= views.take(i as int));
        if let Some(limit) = requested_unit_limit(&instructions[i].1.data) {
            cu_limit = if limit <= MAX_COMPUTE_UNIT_LIMIT {
                limit
            } else {
                MAX_COMPUTE_UNIT_LIMIT
            };
        }
    }
    match outcome {
        Some((fee, priority)) => PriorityDetails { fee, cu_limit, priority },
        None => PriorityDetails { fee: 0, cu_limit, priority: 0 },
    }
}

/// What the transaction pays for priority, and what it may compute. When the compute
/// budget accepts the instructions, all of them were looked at.
pub fn compute_priority_details(transaction: &VersionedTransaction) -> (r: PriorityDetails)
    ensures
        r == priority_details_of(transaction@),
        transaction_sanitizes(transaction@) && budget_processing(
            DEFAULT_INSTRUCTION_COMPUTE_UNIT_LIMIT as u64,
            program_instructions(transaction_in(transaction@)),
            true,
            true,
        ).0 is Some ==> budget_processing(
            DEFAULT_INSTRUCTION_COMPUTE_UNIT_LIMIT as u64,
            program_instructions(transaction_in(transaction@)),
            true,
            true,
        ).1 == transaction_in(transaction@).instructions.len(),
{
    if !transaction.is_sanitized() {
        return PriorityDetails {
            fee: 0,
            cu_limit: DEFAULT_INSTRUCTION_COMPUTE_UNIT_LIMIT,
            priority: 0,
        };
    }
    let parts = transaction.parts();
    let ghost tx = transaction_in(transaction@);
    let mut instructions: Vec<(Pubkey, CompiledInstruction)> = Vec::new();
    for i in 0..parts.instructions.len()
        invariant
            tx == parts@,
            crate::transaction::program_indexes_in_range(tx),
            program_views(instructions@) == program_instructions(tx).take(i as int),
    {
        assert(tx.instructions[i as int] == parts.instructions[i as int]@);
        let ghost before = instructions@;
        let index: usize = parts.instructions[i].program_id_index as usize;
        instructions.push((parts.account_keys[index], parts.instructions[i].clone()));
        assert(program_views(instructions@) =~= program_views(before).push(
            program_instructions(tx)[i as int],
        ));
        assert(program_instructions(tx).take(i + 1) =~= program_instructions(tx).take(
            i as int,
        ).push(program_instructions(tx)[i as int]));
    }
    assert(program_instructions(tx).take(parts.instructions.len() as int)
        =~= program_instructions(tx));
    let (outcome, seen) = process_instructions(
        DEFAULT_INSTRUCTION_COMPUTE_UNIT_LIMIT as u64,
        &instructions,
        true,
        true,
    );
    priority_details(&instructions, outcome, seen)
}

/// The compute unit limit is that of the last request among the instructions that were
/// looked at, no more than 1400000.
pub proof fn law_last_request_counts(
    instructions: Seq<(Seq<u8>, InstructionView)>,
    outcome: Option<(u64, u64)>,
    seen: int,
    i: int,
    limit: u32,
)
    requires
        0 <= i < seen <= instructions.len(),
        unit_limit_request(instructions[i].1.data) == Some(limit),
        forall|j: int|
            i < j < seen ==> unit_limit_request((#[trigger] instructions[j]).1.data) is None,
    ensures
        details_after(instructions, outcome, seen).cu_limit <= 1_400_000,
        details_after(instructions, outcome, seen).cu_limit <= limit,
        details_after(instructions, outcome, seen).cu_limit == limit || details_after(
            instructions,
            outcome,
            seen,
        ).cu_limit == 1_400_000,
    decreases seen - i,
{
    let looked_at = instructions.take(seen);
    assert(looked_at.last() == instructions[seen - 1]);
    if i < seen - 1 {
        assert(looked_at.drop_last() =~= instructions.take(seen - 1));
        law_last_request_counts(instructions, outcome, seen - 1, i, limit);
    }
}

/// Without a request among the instructions that were looked at the limit is 200000.
pub proof fn law_no_request_no_limit(
    instructions: Seq<(Seq<u8>, InstructionView)>,
    outcome: Option<(u64, u64)>,
    seen: int,
)
    requires
        0 <= seen <= instructions.len(),
        forall|j: int|
            0 <= j < seen ==> unit_limit_request((#[trigger] instructions[j]).1.data) is None,
    ensures
        details_after(instructions, outcome, seen).cu_limit == 200_000,
    decreases seen,
{
    let looked_at = instructions.take(seen);
    if seen > 0 {
        assert(looked_at.last() == instructions[seen - 1]);
        assert(looked_at.drop_last() =~= instructions.take(seen - 1));
        law_no_request_no_limit(instructions, outcome, seen - 1);
    }
}

/// Fee and priority are those that the compute budget comes to, both zero where it refuses
/// the instructions or the transaction is malformed. The budget is given every instruction
/// of the transaction, in order, with the address of its program.
pub proof fn law_fee_is_the_budgets(encoded: Seq<u8>, i: int)
    ensures
        ({
            let details = priority_details_of(encoded);
            let transaction = transaction_in(encoded);
            let instructions = program_instructions(transaction);
            let outcome = budget_processing(200_000, instructions, true, true).0;
            let seen = budget_processing(200_000, instructions, true, true).1;
            &&& !transaction_sanitizes(encoded) ==> details.fee == 0 && details.priority == 0
                && details.cu_limit == 200_000
            &&& transaction_sanitizes(encoded) && outcome is None ==> details.fee == 0
                && details.priority == 0
            &&& transaction_sanitizes(encoded) ==> (outcome matches Some((fee, priority))
                ==> details.fee == fee && details.priority == priority)
            &&& transaction_sanitizes(encoded) ==> details == details_after(
                instructions,
                outcome,
                seen as int,
            )
            &&& instructions.len() == transaction.instructions.len()
            &&& 0 <= i < instructions.len() ==> instructions[i].1 == transaction.instructions[i]
                && instructions[i].0
                == transaction.account_keys[transaction.instructions[i].program_id_index as int]
        }),
{
}

} // verus!
