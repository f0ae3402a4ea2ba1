use vstd::prelude::*;

use crate::encode::{arg_fits, encode_instruction_data, spec_encode_instruction_data, ArgValue, BuildError};
use crate::plan::{GenerationPlan, InstructionPlan};
use crate::pubkey::WrappedPubkey;

verus! {

/// An account that an instruction reads or writes, as a Solana `AccountMeta`.
#[derive(Clone, Copy, Debug, PartialEq, Eq)]
pub struct AccountMeta {
    pub pubkey: WrappedPubkey,
    pub is_signer: bool,
    pub is_writable: bool,
}

/// A Solana instruction: the program, its accounts and its data.
#[derive(Debug)]
pub struct Instruction {
    pub program_id: WrappedPubkey,
    pub accounts: Vec<AccountMeta>,
    pub data: Vec<u8>,
}

/// The entry of account `i` of `plan` for the key `key`: writable accounts as
/// `AccountMeta::new`, the others as `AccountMeta::new_readonly`.
pub open spec fn account_meta_at(plan: InstructionPlan, i: int, key: WrappedPubkey) -> AccountMeta {
    AccountMeta { pubkey: key, is_signer: plan.accounts@[i].signer, is_writable: plan.accounts@[i].writable }
}

/// What building an instruction of `plan` for `program_id` gives: the
/// account-count error, else the outcome of encoding the data; on success the
/// program id, and one account entry per planned account with the key given
/// for it.
pub open spec fn built(
    plan: InstructionPlan,
    program_id: WrappedPubkey,
    accounts: Seq<WrappedPubkey>,
    args: Seq<ArgValue>,
    result: Result<Instruction, BuildError>,
) -> bool {
    &&& accounts.len() != plan.accounts@.len() ==> result == Err::<Instruction, BuildError>(
        BuildError::AccountCount { expected: plan.accounts@.len() as usize, given: accounts.len() as usize },
    )
    &&& accounts.len() == plan.accounts@.len() ==> spec_encode_instruction_data(
        plan.discriminator@,
        plan.serializers@,
        args,
        match result {
            Ok(ix) => Ok::<Seq<u8>, BuildError>(ix.data@),
            Err(e) => Err::<Seq<u8>, BuildError>(e),
        },
    )
    &&& result matches Ok(ix) ==> {
        &&& ix.program_id == program_id
        &&& ix.accounts@.len() == accounts.len()
        &&& forall|i: int|
            0 <= i < accounts.len() ==> #[trigger] ix.accounts@[i] == account_meta_at(plan, i, accounts[i])
    }
}

/// Builds the instruction for `plan` as the builder that the generator emits
/// for it does: the program id, one account entry per planned account with
/// the key given for it, and the instruction data.
pub fn build_instruction(
    plan: &InstructionPlan,
    program_id: WrappedPubkey,
    accounts: &[WrappedPubkey],
    args: &[ArgValue],
) -> (result: Result<Instruction, BuildError>)
    requires
        forall|i: int| 0 <= i < args@.len() ==> #[trigger] arg_fits(args@[i]),
    ensures
        built(*plan, program_id, accounts@, args@, result),
{
    if accounts.len() != plan.accounts.len() {
        return Err(BuildError::AccountCount { expected: plan.accounts.len(), given: accounts.len() });
    }
    let data = match encode_instruction_data(plan.discriminator.as_slice(), plan.serializers.as_slice(), args) {
        Ok(data) => data,
        Err(e) => return Err(e),
    };
    let mut metas: Vec<AccountMeta> = Vec::new();
    let mut i: usize = 0;
    while i < accounts.len()
        invariant
            i <= accounts.len(),
            accounts@.len() == plan.accounts@.len(),
            metas@.len() == i,
            forall|j: int| 0 <= j < i ==> #[trigger] metas@[j] == account_meta_at(*plan, j, accounts@[j]),
        decreases accounts.len() - i,
    {
        let entry = &plan.accounts[i];
        metas.push(AccountMeta { pubkey: accounts[i], is_signer: entry.signer, is_writable: entry.writable });
        i = i + 1;
    }
    Ok(Instruction { program_id, accounts: metas, data })
}

/// Builds instruction `index` of a generated program as its generated
/// builder does: with the program id that the IDL's address denotes, or
/// `InvalidProgramAddress` where the address is no Solana address (the
/// generated code then does not compile).
pub fn build_program_instruction(
    plan: &GenerationPlan,
    index: usize,
    accounts: &[WrappedPubkey],
    args: &[ArgValue],
) -> (result: Result<Instruction, BuildError>)
    requires
        index < plan.instructions@.len(),
        forall|i: int| 0 <= i < args@.len() ==> #[trigger] arg_fits(args@[i]),
    ensures
        plan.program_id is None ==> result == Err::<Instruction, BuildError>(BuildError::InvalidProgramAddress),
        plan.program_id matches Some(id) ==> built(plan.instructions@[index as int], id, accounts@, args@, result),
{
    match plan.program_id {
        Some(id) => build_instruction(&plan.instructions[index], id, accounts, args),
        None => Err(BuildError::InvalidProgramAddress),
    }
}

/// A built instruction carries, for each planned account in order, the key
/// given for it and exactly the planned writable and signer flags, each
/// independently of the other, and the program id it was built for.
pub proof fn lemma_built_accounts_carry_plan(
    plan: InstructionPlan,
    program_id: WrappedPubkey,
    accounts: Seq<WrappedPubkey>,
    args: Seq<ArgValue>,
    ix: Instruction,
)
    requires
        built(plan, program_id, accounts, args, Ok(ix)),
    ensures
        ix.program_id == program_id,
        ix.accounts@.len() == plan.accounts@.len(),
        forall|i: int|
            0 <= i < accounts.len() ==> {
                &&& (#[trigger] ix.accounts@[i]).pubkey == accounts[i]
                &&& ix.accounts@[i].is_writable == plan.accounts@[i].writable
                &&& ix.accounts@[i].is_signer == plan.accounts@[i].signer
            },
{
    assert forall|i: int| 0 <= i < accounts.len() implies {
        &&& (#[trigger] ix.accounts@[i]).pubkey == accounts[i]
        &&& ix.accounts@[i].is_writable == plan.accounts@[i].writable
        &&& ix.accounts@[i].is_signer == plan.accounts@[i].signer
    } by {
        assert(ix.accounts@[i] == account_meta_at(plan, i, accounts[i]));
    }
}

} // verus!
