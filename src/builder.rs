use vstd::prelude::*;
use vstd::bytes::*;

use crate::ids::{
    clock_id, config_id, program_id, rent_id, rewards_id, spec_clock_id, spec_config_id,
    spec_program_id, spec_rent_id, spec_rewards_id, spec_stake_history_id, stake_history_id,
};
use crate::instruction::{instruction_bytes, push_pubkey, StakeInstruction};
use crate::account::STAKE_STATE_SIZE;
use crate::pubkey::Pubkey;
use crate::state::{Authorized, Lockup, StakeAuthorize};

verus! {

/// An account an instruction names, with whether it must sign and whether the
/// instruction may change it.
#[derive(Clone, Copy, Debug, PartialEq, Eq)]
pub struct AccountMeta {
    pub pubkey: Pubkey,
    pub is_signer: bool,
    pub is_writable: bool,
}

/// A program, the accounts it is handed, in order, and the instruction bytes.
#[derive(Clone, Debug, PartialEq, Eq)]
pub struct Instruction {
    pub program_id: Pubkey,
    pub accounts: Vec<AccountMeta>,
    pub data: Vec<u8>,
}

pub open spec fn meta(k: Pubkey, is_signer: bool, is_writable: bool) -> AccountMeta {
    AccountMeta { pubkey: k, is_signer, is_writable }
}

impl AccountMeta {
    /// A writable account.
    pub fn new(pubkey: Pubkey, is_signer: bool) -> (r: AccountMeta)
        ensures
            r == meta(pubkey, is_signer, true),
    {
        AccountMeta { pubkey, is_signer, is_writable: true }
    }

    /// A read-only account.
    pub fn new_credit_only(pubkey: Pubkey, is_signer: bool) -> (r: AccountMeta)
        ensures
            r == meta(pubkey, is_signer, false),
    {
        AccountMeta { pubkey, is_signer, is_writable: false }
    }
}

/// The stake account, then `others`, then the authorized key as a read-only
/// signer when it is not the stake account's own key (which then signs).
pub open spec fn authorized_signer_metas(
    account: Pubkey,
    signer: Pubkey,
    others: Seq<AccountMeta>,
) -> Seq<AccountMeta> {
    let own = account@ == signer@;
    seq![meta(account, own, true)] + others + if own {
        Seq::empty()
    } else {
        seq![meta(signer, true, false)]
    }
}

/// Account metas for an instruction whose authorized signer may differ from
/// the stake account's key.
pub fn metas_for_authorized_signer(
    account_pubkey: &Pubkey,
    authorized_signer: &Pubkey,
    other_params: &Vec<AccountMeta>,
) -> (r: Vec<AccountMeta>)
    ensures
        r@ == authorized_signer_metas(*account_pubkey, *authorized_signer, other_params@),
{
    let is_own_signer = authorized_signer.equals(account_pubkey);
    let mut metas = vec![AccountMeta::new(*account_pubkey, is_own_signer)];
    let n = other_params.len();
    let mut i: usize = 0;
    while i < n
        invariant
            n == other_params@.len(),
            i <= n,
            metas@ == seq![meta(*account_pubkey, is_own_signer, true)] + other_params@.subrange(
                0,
                i as int,
            ),
        decreases n - i,
    {
        metas.push(other_params[i]);
        i = i + 1;
        assert(metas@ =~= seq![meta(*account_pubkey, is_own_signer, true)]
            + other_params@.subrange(0, i as int));
    }
    assert(other_params@.subrange(0, n as int) =~= other_params@);
    if !is_own_signer {
        metas.push(AccountMeta::new_credit_only(*authorized_signer, true));
    }
    assert(metas@ =~= authorized_signer_metas(*account_pubkey, *authorized_signer, other_params@));
    metas
}

fn stake_instruction(ix: StakeInstruction, accounts: Vec<AccountMeta>) -> (r: Instruction)
    ensures
        r.program_id@ == spec_program_id(),
        r.accounts@ == accounts@,
        r.data@ == instruction_bytes(ix),
{
    Instruction { program_id: program_id(), accounts, data: ix.encode() }
}

/// An `Authorize` instruction that makes `new_authorized_pubkey` the key of
/// `stake_authorize`, signed by the current `authorized_pubkey`. It names no
/// clock, so a withdrawer change under a lockup with a positive time or epoch
/// needs the custodian's signature too (see `spec_process_authorize`).
pub fn authorize(
    stake_pubkey: &Pubkey,
    authorized_pubkey: &Pubkey,
    new_authorized_pubkey: &Pubkey,
    stake_authorize: StakeAuthorize,
) -> (r: Instruction)
    ensures
        r.program_id@ == spec_program_id(),
        r.accounts@ == authorized_signer_metas(*stake_pubkey, *authorized_pubkey, Seq::empty()),
        r.data@ == instruction_bytes(
            StakeInstruction::Authorize(*new_authorized_pubkey, stake_authorize),
        ),
{
    let metas = metas_for_authorized_signer(stake_pubkey, authorized_pubkey, &Vec::new());
    stake_instruction(StakeInstruction::Authorize(*new_authorized_pubkey, stake_authorize), metas)
}

/// A `RedeemVoteCredits` instruction paying from the rewards pool `rewards_pool_pubkey`.
pub fn redeem_vote_credits(
    stake_pubkey: &Pubkey,
    vote_pubkey: &Pubkey,
    rewards_pool_pubkey: &Pubkey,
) -> (r: Instruction)
    ensures
        r.program_id@ == spec_program_id(),
        r.accounts@.len() == 5,
        r.accounts@[0] == meta(*stake_pubkey, false, true),
        r.accounts@[1] == meta(*vote_pubkey, false, false),
        r.accounts@[2] == meta(*rewards_pool_pubkey, false, true),
        r.accounts@[3].pubkey@ == spec_rewards_id() && !r.accounts@[3].is_signer
            && !r.accounts@[3].is_writable,
        r.accounts@[4].pubkey@ == spec_stake_history_id() && !r.accounts@[4].is_signer
            && !r.accounts@[4].is_writable,
        r.data@ == instruction_bytes(StakeInstruction::RedeemVoteCredits),
{
    let metas = vec![
        AccountMeta::new(*stake_pubkey, false),
        AccountMeta::new_credit_only(*vote_pubkey, false),
        AccountMeta::new(*rewards_pool_pubkey, false),
        AccountMeta::new_credit_only(rewards_id(), false),
        AccountMeta::new_credit_only(stake_history_id(), false),
    ];
    stake_instruction(StakeInstruction::RedeemVoteCredits, metas)
}

/// Whether `ix` delegates `stake` to `vote`, signed by `authorized`: the
/// stake account, the vote account, the clock sysvar and the stake config,
/// then the signer when it is not the stake account itself.
pub open spec fn is_delegate_stake(ix: Instruction, stake: Pubkey, authorized: Pubkey, vote: Pubkey) -> bool {
    &&& ix.program_id@ == spec_program_id()
    &&& exists|clock: Pubkey, config: Pubkey|
        clock@ == spec_clock_id() && config@ == spec_config_id() && ix.accounts@
            == authorized_signer_metas(
            stake,
            authorized,
            seq![meta(vote, false, false), meta(clock, false, false), meta(config, false, false)],
        )
    &&& ix.data@ == instruction_bytes(StakeInstruction::DelegateStake)
}

/// A `DelegateStake` instruction to `vote_pubkey`, signed by the staker.
pub fn delegate_stake(stake_pubkey: &Pubkey, authorized_pubkey: &Pubkey, vote_pubkey: &Pubkey) -> (r:
    Instruction)
    ensures
        is_delegate_stake(r, *stake_pubkey, *authorized_pubkey, *vote_pubkey),
{
    let clock = clock_id();
    let config = config_id();
    let others = vec![
        AccountMeta::new_credit_only(*vote_pubkey, false),
        AccountMeta::new_credit_only(clock, false),
        AccountMeta::new_credit_only(config, false),
    ];
    assert(others@ =~= seq![
        meta(*vote_pubkey, false, false),
        meta(clock, false, false),
        meta(config, false, false),
    ]);
    let metas = metas_for_authorized_signer(stake_pubkey, authorized_pubkey, &others);
    stake_instruction(StakeInstruction::DelegateStake, metas)
}

/// A `Withdraw` instruction moving `lamports` to `to_pubkey`, signed by the
/// withdrawer. When the destination is the withdrawer itself it is named once,
/// as the trailing signer.
pub fn withdraw(
    stake_pubkey: &Pubkey,
    authorized_pubkey: &Pubkey,
    to_pubkey: &Pubkey,
    lamports: u64,
) -> (r: Instruction)
    ensures
        r.program_id@ == spec_program_id(),
        exists|clock: Pubkey, history: Pubkey|
            clock@ == spec_clock_id() && history@ == spec_stake_history_id() && r.accounts@
                == authorized_signer_metas(
                *stake_pubkey,
                *authorized_pubkey,
                seq![meta(clock, false, false), meta(history, false, false)] + if to_pubkey@
                    == authorized_pubkey@ {
                    Seq::empty()
                } else {
                    seq![meta(*to_pubkey, false, false)]
                },
            ),
        r.data@ == instruction_bytes(StakeInstruction::Withdraw(lamports)),
{
    let clock = clock_id();
    let history = stake_history_id();
    let mut others = vec![
        AccountMeta::new_credit_only(clock, false),
        AccountMeta::new_credit_only(history, false),
    ];
    if !to_pubkey.equals(authorized_pubkey) {
        others.push(AccountMeta::new_credit_only(*to_pubkey, false));
    }
    assert(others@ =~= seq![meta(clock, false, false), meta(history, false, false)] + if to_pubkey@
        == authorized_pubkey@ {
        Seq::empty()
    } else {
        seq![meta(*to_pubkey, false, false)]
    });
    let metas = metas_for_authorized_signer(stake_pubkey, authorized_pubkey, &others);
    stake_instruction(StakeInstruction::Withdraw(lamports), metas)
}

/// A `Deactivate` instruction, signed by the staker.
pub fn deactivate_stake(stake_pubkey: &Pubkey, authorized_pubkey: &Pubkey) -> (r: Instruction)
    ensures
        r.program_id@ == spec_program_id(),
        exists|clock: Pubkey|
            clock@ == spec_clock_id() && r.accounts@ == authorized_signer_metas(
                *stake_pubkey,
                *authorized_pubkey,
                seq![meta(clock, false, false)],
            ),
        r.data@ == instruction_bytes(StakeInstruction::Deactivate),
{
    let clock = clock_id();
    let others = vec![AccountMeta::new_credit_only(clock, false)];
    assert(others@ =~= seq![meta(clock, false, false)]);
    let metas = metas_for_authorized_signer(stake_pubkey, authorized_pubkey, &others);
    stake_instruction(StakeInstruction::Deactivate, metas)
}

/// The system program's key (all zero bytes).
pub open spec fn spec_system_program_id() -> Seq<u8> {
    Seq::new(32, |i: int| 0u8)
}

/// The system program's `CreateAccount` bytes: variant index 0, the lamports,
/// the data size and the owning program.
pub open spec fn create_account_bytes(lamports: u64, space: u64, owner: Seq<u8>) -> Seq<u8> {
    spec_u32_to_le_bytes(0) + spec_u64_to_le_bytes(lamports) + spec_u64_to_le_bytes(space) + owner
}

/// A system-program instruction creating `to_pubkey` with `lamports` and
/// `space` bytes of data, owned by `owner`; both accounts sign.
pub fn create_account(
    from_pubkey: &Pubkey,
    to_pubkey: &Pubkey,
    lamports: u64,
    space: u64,
    owner: &Pubkey,
) -> (r: Instruction)
    ensures
        r.program_id@ == spec_system_program_id(),
        r.accounts@ == seq![meta(*from_pubkey, true, true), meta(*to_pubkey, true, true)],
        r.data@ == create_account_bytes(lamports, space, owner@),
{
    let mut data = u32_to_le_bytes(0);
    let mut l = u64_to_le_bytes(lamports);
    data.append(&mut l);
    let mut s = u64_to_le_bytes(space);
    data.append(&mut s);
    push_pubkey(&mut data, owner);
    let accounts = vec![AccountMeta::new(*from_pubkey, true), AccountMeta::new(*to_pubkey, true)];
    assert(accounts@ =~= seq![meta(*from_pubkey, true, true), meta(*to_pubkey, true, true)]);
    Instruction { program_id: Pubkey::zero(), accounts, data }
}

/// Whether `ixs` begins with the two instructions that create the stake
/// account `stake` funded by `from` with `lamports` and initialize it: the
/// system program's `CreateAccount`, then `Initialize` over the stake account
/// and the (writable) rent sysvar.
pub open spec fn creates_stake_account(
    ixs: Seq<Instruction>,
    from: Pubkey,
    stake: Pubkey,
    authorized: Authorized,
    lockup: Lockup,
    lamports: u64,
) -> bool {
    &&& ixs.len() >= 2
    &&& ixs[0].program_id@ == spec_system_program_id()
    &&& ixs[0].accounts@ == seq![meta(from, true, true), meta(stake, true, true)]
    &&& ixs[0].data@ == create_account_bytes(lamports, STAKE_STATE_SIZE, spec_program_id())
    &&& ixs[1].program_id@ == spec_program_id()
    &&& exists|rent: Pubkey|
        rent@ == spec_rent_id() && ixs[1].accounts@ == seq![
            meta(stake, false, true),
            meta(rent, false, true),
        ]
    &&& ixs[1].data@ == instruction_bytes(StakeInstruction::Initialize(authorized, lockup))
}

/// Whether `lockup` is the lockup that never blocks: time 0, epoch 0, the zero
/// key as custodian.
pub open spec fn is_no_lockup(lockup: Lockup) -> bool {
    &&& lockup.unix_timestamp == 0
    &&& lockup.epoch == 0
    &&& lockup.custodian@ == Seq::new(32, |i: int| 0u8)
}

/// Creates a stake account funded with `lamports` and initializes it with
/// `authorized` and `lockup`.
pub fn create_stake_account_with_lockup(
    from_pubkey: &Pubkey,
    stake_pubkey: &Pubkey,
    authorized: &Authorized,
    lockup: &Lockup,
    lamports: u64,
) -> (r: Vec<Instruction>)
    ensures
        r@.len() == 2,
        creates_stake_account(r@, *from_pubkey, *stake_pubkey, *authorized, *lockup, lamports),
{
    let create = create_account(from_pubkey, stake_pubkey, lamports, STAKE_STATE_SIZE, &program_id());
    let rent = rent_id();
    let metas = vec![AccountMeta::new(*stake_pubkey, false), AccountMeta::new(rent, false)];
    assert(metas@ =~= seq![meta(*stake_pubkey, false, true), meta(rent, false, true)]);
    let init = stake_instruction(StakeInstruction::Initialize(*authorized, *lockup), metas);
    vec![create, init]
}

/// Creates and initializes a stake account with no lockup.
pub fn create_stake_account(
    from_pubkey: &Pubkey,
    stake_pubkey: &Pubkey,
    authorized: &Authorized,
    lamports: u64,
) -> (r: Vec<Instruction>)
    ensures
        r@.len() == 2,
        exists|lockup: Lockup|
            is_no_lockup(lockup) && creates_stake_account(
                r@,
                *from_pubkey,
                *stake_pubkey,
                *authorized,
                lockup,
                lamports,
            ),
{
    let lockup = Lockup::default();
    let r = create_stake_account_with_lockup(from_pubkey, stake_pubkey, authorized, &lockup, lamports);
    assert(is_no_lockup(lockup) && creates_stake_account(
        r@,
        *from_pubkey,
        *stake_pubkey,
        *authorized,
        lockup,
        lamports,
    ));
    r
}

/// Creates and initializes a stake account with no lockup, then delegates it
/// to `vote_pubkey` under the staker's signature.
pub fn create_stake_account_and_delegate_stake(
    from_pubkey: &Pubkey,
    stake_pubkey: &Pubkey,
    vote_pubkey: &Pubkey,
    authorized: &Authorized,
    lamports: u64,
) -> (r: Vec<Instruction>)
    ensures
        r@.len() == 3,
        exists|lockup: Lockup|
            is_no_lockup(lockup) && creates_stake_account(
                r@,
                *from_pubkey,
                *stake_pubkey,
                *authorized,
                lockup,
                lamports,
            ),
        is_delegate_stake(r@[2], *stake_pubkey, authorized.staker, *vote_pubkey),
{
    let mut instructions = create_stake_account(from_pubkey, stake_pubkey, authorized, lamports);
    let d = delegate_stake(stake_pubkey, &authorized.staker, vote_pubkey);
    let ghost before = instructions@;
    instructions.push(d);
    proof {
        let lockup = choose|lockup: Lockup|
            is_no_lockup(lockup) && creates_stake_account(
                before,
                *from_pubkey,
                *stake_pubkey,
                *authorized,
                lockup,
                lamports,
            );
        assert(instructions@[0] == before[0]);
        assert(instructions@[1] == before[1]);
        assert(creates_stake_account(
            instructions@,
            *from_pubkey,
            *stake_pubkey,
            *authorized,
            lockup,
            lamports,
        ));
    }
    instructions
}

/// An ordered list of instructions, built up one at a time.
#[derive(Clone, Debug, PartialEq, Eq)]
pub struct Instructions {
    pub instructions: Vec<Instruction>,
}

impl View for Instructions {
    type V = Seq<Instruction>;

    open spec fn view(&self) -> Seq<Instruction> {
        self.instructions@
    }
}

impl Instructions {
    /// An empty list.
    pub fn constructor() -> (r: Instructions)
        ensures
            r@ == Seq::<Instruction>::empty(),
    {
        Instructions { instructions: Vec::new() }
    }

    /// Appends `instruction`.
    pub fn push(&mut self, instruction: Instruction)
        ensures
            final(self)@ == old(self)@.push(instruction),
    {
        self.instructions.push(instruction);
    }
}

impl Default for Instructions {
    fn default() -> (r: Instructions)
        ensures
            r@ == Seq::<Instruction>::empty(),
    {
        Instructions::constructor()
    }
}

impl From<Instructions> for Vec<Instruction> {
    fn from(instructions: Instructions) -> (r: Vec<Instruction>) {
        instructions.instructions
    }
}

impl vstd::std_specs::convert::FromSpecImpl<Instructions> for Vec<Instruction> {
    open spec fn obeys_from_spec() -> bool {
        true
    }

    open spec fn from_spec(instructions: Instructions) -> Vec<Instruction> {
        instructions.instructions
    }
}

} // verus!
