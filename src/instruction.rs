use vstd::prelude::*;
use vstd::bytes::*;
use vstd::slice::slice_subrange;

use crate::pubkey::Pubkey;
use crate::state::{Authorized, Lockup, StakeAuthorize};

verus! {

/// The six stake instructions.
///
/// On the wire an instruction is a little-endian `u32` variant index followed by
/// its fields in order: keys as 32 raw bytes, integers as 8 little-endian bytes,
/// `StakeAuthorize` as a little-endian `u32` index.
#[derive(Clone, Copy, Debug, PartialEq, Eq)]
pub enum StakeInstruction {
    /// Set the authorities and lockup of an uninitialized account.
    Initialize(Authorized, Lockup),
    /// Replace the staker or withdrawer key.
    Authorize(Pubkey, StakeAuthorize),
    /// Delegate the account's stakeable balance to a vote account.
    DelegateStake,
    /// Pay out the vote credits earned since the last redemption.
    RedeemVoteCredits,
    /// Move the given number of lamports out of the account.
    Withdraw(u64),
    /// Start cooling the delegation down.
    Deactivate,
}

pub open spec fn authorize_index(r: StakeAuthorize) -> u32 {
    match r {
        StakeAuthorize::Staker => 0,
        StakeAuthorize::Withdrawer => 1,
    }
}

pub open spec fn variant_index(ix: StakeInstruction) -> u32 {
    match ix {
        StakeInstruction::Initialize(..) => 0,
        StakeInstruction::Authorize(..) => 1,
        StakeInstruction::DelegateStake => 2,
        StakeInstruction::RedeemVoteCredits => 3,
        StakeInstruction::Withdraw(..) => 4,
        StakeInstruction::Deactivate => 5,
    }
}

pub open spec fn payload_bytes(ix: StakeInstruction) -> Seq<u8> {
    match ix {
        StakeInstruction::Initialize(a, l) => a.staker@ + a.withdrawer@ + spec_u64_to_le_bytes(
            l.unix_timestamp as u64,
        ) + spec_u64_to_le_bytes(l.epoch) + l.custodian@,
        StakeInstruction::Authorize(k, r) => k@ + spec_u32_to_le_bytes(authorize_index(r)),
        StakeInstruction::Withdraw(n) => spec_u64_to_le_bytes(n),
        _ => Seq::empty(),
    }
}

/// The byte form of an instruction.
pub open spec fn instruction_bytes(ix: StakeInstruction) -> Seq<u8> {
    spec_u32_to_le_bytes(variant_index(ix)) + payload_bytes(ix)
}

/// The instruction whose byte form is `b`, if there is one.
pub open spec fn spec_decode(b: Seq<u8>) -> Option<StakeInstruction> {
    if exists|ix: StakeInstruction| instruction_bytes(ix) == b {
        Some(choose|ix: StakeInstruction| instruction_bytes(ix) == b)
    } else {
        None
    }
}

pub open spec fn payload_len(index: u32) -> int {
    if index == 0 {
        112
    } else if index == 1 {
        36
    } else if index == 4 {
        8
    } else {
        0
    }
}

proof fn lemma_bytes_shape(ix: StakeInstruction)
    ensures
        instruction_bytes(ix).len() == 4 + payload_len(variant_index(ix)),
        instruction_bytes(ix).subrange(0, 4) == spec_u32_to_le_bytes(variant_index(ix)),
        ix is Authorize ==> instruction_bytes(ix).subrange(36, 40) == spec_u32_to_le_bytes(
            authorize_index(ix->Authorize_1),
        ),
{
    lemma_auto_spec_u32_to_from_le_bytes();
    lemma_auto_spec_u64_to_from_le_bytes();
    let b = instruction_bytes(ix);
    assert(b.subrange(0, 4) =~= spec_u32_to_le_bytes(variant_index(ix)));
    if ix is Authorize {
        assert(b.subrange(36, 40) =~= spec_u32_to_le_bytes(authorize_index(ix->Authorize_1)));
    }
}

/// Distinct instructions have distinct byte forms.
pub proof fn lemma_bytes_injective(a: StakeInstruction, b: StakeInstruction)
    requires
        instruction_bytes(a) == instruction_bytes(b),
    ensures
        a == b,
{
    lemma_auto_spec_u32_to_from_le_bytes();
    lemma_auto_spec_u64_to_from_le_bytes();
    lemma_bytes_shape(a);
    lemma_bytes_shape(b);
    let s = instruction_bytes(a);
    assert(variant_index(a) == variant_index(b));
    match (a, b) {
        (StakeInstruction::Initialize(x, l), StakeInstruction::Initialize(y, m)) => {
            let t = instruction_bytes(b);
            assert(x.staker@ =~= s.subrange(4, 36));
            assert(y.staker@ =~= t.subrange(4, 36));
            assert(x.withdrawer@ =~= s.subrange(36, 68));
            assert(y.withdrawer@ =~= t.subrange(36, 68));
            assert(spec_u64_to_le_bytes(l.unix_timestamp as u64) =~= s.subrange(68, 76));
            assert(spec_u64_to_le_bytes(m.unix_timestamp as u64) =~= t.subrange(68, 76));
            assert(spec_u64_to_le_bytes(l.epoch) =~= s.subrange(76, 84));
            assert(spec_u64_to_le_bytes(m.epoch) =~= t.subrange(76, 84));
            assert(l.custodian@ =~= s.subrange(84, 116));
            assert(m.custodian@ =~= t.subrange(84, 116));
            lemma_i64_u64_round_trip(l.unix_timestamp, 0);
            lemma_i64_u64_round_trip(m.unix_timestamp, 0);
            assert(x.staker.0 =~= y.staker.0);
            assert(x.withdrawer.0 =~= y.withdrawer.0);
            assert(l.custodian.0 =~= m.custodian.0);
        },
        (StakeInstruction::Authorize(k, r), StakeInstruction::Authorize(j, q)) => {
            let t = instruction_bytes(b);
            assert(k@ =~= s.subrange(4, 36));
            assert(j@ =~= t.subrange(4, 36));
            assert(k.0 =~= j.0);
            assert(authorize_index(r) == authorize_index(q));
        },
        (StakeInstruction::Withdraw(n), StakeInstruction::Withdraw(m)) => {
            let t = instruction_bytes(b);
            assert(spec_u64_to_le_bytes(n) =~= s.subrange(4, 12));
            assert(spec_u64_to_le_bytes(m) =~= t.subrange(4, 12));
        },
        _ => {},
    }
}

/// Decoding the byte form of an instruction gives that instruction back, and
/// whatever decodes re-encodes to exactly the bytes it came from.
pub proof fn lemma_decode_round_trip(ix: StakeInstruction, b: Seq<u8>)
    ensures
        spec_decode(instruction_bytes(ix)) == Some(ix),
        spec_decode(b) matches Some(d) ==> instruction_bytes(d) == b,
{
    let c = choose|d: StakeInstruction| instruction_bytes(d) == instruction_bytes(ix);
    lemma_bytes_injective(c, ix);
}

proof fn lemma_i64_u64_round_trip(x: i64, y: u64)
    ensures
        (x as u64) as i64 == x,
        (y as i64) as u64 == y,
{
    assert((x as u64) as i64 == x) by (bit_vector);
    assert((y as i64) as u64 == y) by (bit_vector);
}

fn read_pubkey(data: &[u8], pos: usize) -> (r: Pubkey)
    requires
        pos + 32 <= data@.len(),
    ensures
        r@ == data@.subrange(pos as int, pos + 32),
{
    let _len = data.len();
    let mut a = [0u8; 32];
    let mut i: usize = 0;
    while i < 32
        invariant
            i <= 32,
            pos + 32 <= data@.len() <= usize::MAX,
            forall|j: int| 0 <= j < i ==> a@[j] == data@[pos + j],
        decreases 32 - i,
    {
        a[i] = data[pos + i];
        i = i + 1;
    }
    assert(a@ =~= data@.subrange(pos as int, pos + 32));
    Pubkey(a)
}

fn read_u64(data: &[u8], pos: usize) -> (r: u64)
    requires
        pos + 8 <= data@.len(),
    ensures
        r == spec_u64_from_le_bytes(data@.subrange(pos as int, pos + 8)),
{
    let _len = data.len();
    u64_from_le_bytes(slice_subrange(data, pos, pos + 8))
}

fn read_u32(data: &[u8], pos: usize) -> (r: u32)
    requires
        pos + 4 <= data@.len(),
    ensures
        r == spec_u32_from_le_bytes(data@.subrange(pos as int, pos + 4)),
{
    let _len = data.len();
    u32_from_le_bytes(slice_subrange(data, pos, pos + 4))
}

/// Appends the 32 bytes of `k`.
pub(crate) fn push_pubkey(out: &mut Vec<u8>, k: &Pubkey)
    ensures
        final(out)@ == old(out)@ + k@,
{
    let ghost start = out@;
    let mut i: usize = 0;
    while i < 32
        invariant
            i <= 32,
            out@ == start + k@.subrange(0, i as int),
        decreases 32 - i,
    {
        out.push(k.0[i]);
        i = i + 1;
        assert(out@ =~= start + k@.subrange(0, i as int));
    }
    assert(k@.subrange(0, 32) =~= k@);
}

fn push_bytes(out: &mut Vec<u8>, mut b: Vec<u8>)
    ensures
        final(out)@ == old(out)@ + b@,
{
    out.append(&mut b);
}

impl StakeInstruction {
    /// Reads an instruction from its byte form; `None` unless `data` is exactly
    /// the byte form of some instruction (no trailing bytes, no unknown index).
    pub fn decode(data: &[u8]) -> (r: Option<StakeInstruction>)
        ensures
            r == spec_decode(data@),
    {
        proof {
            lemma_auto_spec_u32_to_from_le_bytes();
            lemma_auto_spec_u64_to_from_le_bytes();
        }
        let len = data.len();
        if len < 4 {
            proof {
                assert forall|ix: StakeInstruction| instruction_bytes(ix) != data@ by {
                    lemma_bytes_shape(ix);
                }
            }
            return None;
        }
        let index = read_u32(data, 0);
        let r = if index == 0 && len == 116 {
            let staker = read_pubkey(data, 4);
            let withdrawer = read_pubkey(data, 36);
            let ts = read_u64(data, 68);
            let epoch = read_u64(data, 76);
            let custodian = read_pubkey(data, 84);
            let ix = StakeInstruction::Initialize(
                Authorized { staker, withdrawer },
                Lockup { unix_timestamp: ts as i64, epoch, custodian },
            );
            proof {
                lemma_i64_u64_round_trip(0, ts);
                assert(spec_u64_to_le_bytes(ts) == data@.subrange(68, 76));
                assert(spec_u64_to_le_bytes(epoch) == data@.subrange(76, 84));
                assert(data@.subrange(0, 4) =~= spec_u32_to_le_bytes(0));
                assert(instruction_bytes(ix) =~= data@);
            }
            Some(ix)
        } else if index == 1 && len == 40 {
            let key = read_pubkey(data, 4);
            let role = read_u32(data, 36);
            if role == 0 || role == 1 {
                let r = if role == 0 {
                    StakeAuthorize::Staker
                } else {
                    StakeAuthorize::Withdrawer
                };
                let ix = StakeInstruction::Authorize(key, r);
                proof {
                    assert(spec_u32_to_le_bytes(role) == data@.subrange(36, 40));
                    assert(instruction_bytes(ix) =~= data@);
                }
                Some(ix)
            } else {
                None
            }
        } else if index == 2 && len == 4 {
            assert(instruction_bytes(StakeInstruction::DelegateStake) =~= data@);
            Some(StakeInstruction::DelegateStake)
        } else if index == 3 && len == 4 {
            assert(instruction_bytes(StakeInstruction::RedeemVoteCredits) =~= data@);
            Some(StakeInstruction::RedeemVoteCredits)
        } else if index == 4 && len == 12 {
            let n = read_u64(data, 4);
            proof {
                assert(spec_u64_to_le_bytes(n) == data@.subrange(4, 12));
                assert(instruction_bytes(StakeInstruction::Withdraw(n)) =~= data@);
            }
            Some(StakeInstruction::Withdraw(n))
        } else if index == 5 && len == 4 {
            assert(instruction_bytes(StakeInstruction::Deactivate) =~= data@);
            Some(StakeInstruction::Deactivate)
        } else {
            None
        };
        proof {
            match r {
                Some(ix) => {
                    lemma_decode_round_trip(ix, data@);
                },
                None => {
                    assert forall|ix: StakeInstruction| instruction_bytes(ix) != data@ by {
                        lemma_bytes_shape(ix);
                        if instruction_bytes(ix) == data@ {
                            assert(data@.subrange(0, 4) == spec_u32_to_le_bytes(variant_index(ix)));
                            assert(index == variant_index(ix));
                            if ix is Authorize {
                                assert(data@.subrange(36, 40) == spec_u32_to_le_bytes(
                                    authorize_index(ix->Authorize_1),
                                ));
                            }
                        }
                    }
                },
            }
        }
        r
    }

    /// The byte form of this instruction.
    pub fn encode(&self) -> (r: Vec<u8>)
        ensures
            r@ == instruction_bytes(*self),
    {
        match self {
            StakeInstruction::Initialize(a, l) => {
                let mut out = u32_to_le_bytes(0);
                push_pubkey(&mut out, &a.staker);
                push_pubkey(&mut out, &a.withdrawer);
                push_bytes(&mut out, u64_to_le_bytes(l.unix_timestamp as u64));
                push_bytes(&mut out, u64_to_le_bytes(l.epoch));
                push_pubkey(&mut out, &l.custodian);
                assert(out@ =~= instruction_bytes(*self));
                out
            },
            StakeInstruction::Authorize(k, r) => {
                let mut out = u32_to_le_bytes(1);
                push_pubkey(&mut out, k);
                let index: u32 = match r {
                    StakeAuthorize::Staker => 0,
                    StakeAuthorize::Withdrawer => 1,
                };
                push_bytes(&mut out, u32_to_le_bytes(index));
                assert(out@ =~= instruction_bytes(*self));
                out
            },
            StakeInstruction::DelegateStake => {
                let out = u32_to_le_bytes(2);
                assert(out@ =~= instruction_bytes(*self));
                out
            },
            StakeInstruction::RedeemVoteCredits => {
                let out = u32_to_le_bytes(3);
                assert(out@ =~= instruction_bytes(*self));
                out
            },
            StakeInstruction::Withdraw(n) => {
                let mut out = u32_to_le_bytes(4);
                push_bytes(&mut out, u64_to_le_bytes(*n));
                assert(out@ =~= instruction_bytes(*self));
                out
            },
            StakeInstruction::Deactivate => {
                let out = u32_to_le_bytes(5);
                assert(out@ =~= instruction_bytes(*self));
                out
            },
        }
    }
}

} // verus!
