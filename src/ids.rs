use vstd::prelude::*;

use crate::pubkey::Pubkey;

verus! {

pub open spec fn spec_clock_id() -> Seq<u8> {
    seq![6u8, 167u8, 213u8, 23u8, 24u8, 199u8, 116u8, 201u8, 40u8, 86u8, 99u8, 152u8, 105u8, 29u8, 94u8, 182u8, 139u8, 94u8, 184u8, 163u8, 155u8, 75u8, 109u8, 92u8, 115u8, 85u8, 91u8, 33u8, 0u8, 0u8, 0u8, 0u8]
}

/// The clock sysvar account (`SysvarC1ock11111111111111111111111111111111`).
pub fn clock_id() -> (r: Pubkey)
    ensures
        r@ == spec_clock_id(),
{
    let r = Pubkey([6, 167, 213, 23, 24, 199, 116, 201, 40, 86, 99, 152, 105, 29, 94, 182, 139, 94, 184, 163, 155, 75, 109, 92, 115, 85, 91, 33, 0, 0, 0, 0]);
    assert(r@ =~= spec_clock_id());
    r
}

pub open spec fn spec_rent_id() -> Seq<u8> {
    seq![6u8, 167u8, 213u8, 23u8, 25u8, 44u8, 92u8, 81u8, 33u8, 140u8, 201u8, 76u8, 61u8, 74u8, 241u8, 127u8, 88u8, 218u8, 238u8, 8u8, 155u8, 161u8, 253u8, 68u8, 227u8, 219u8, 217u8, 138u8, 0u8, 0u8, 0u8, 0u8]
}

/// The rent sysvar account (`SysvarRent111111111111111111111111111111111`).
pub fn rent_id() -> (r: Pubkey)
    ensures
        r@ == spec_rent_id(),
{
    let r = Pubkey([6, 167, 213, 23, 25, 44, 92, 81, 33, 140, 201, 76, 61, 74, 241, 127, 88, 218, 238, 8, 155, 161, 253, 68, 227, 219, 217, 138, 0, 0, 0, 0]);
    assert(r@ =~= spec_rent_id());
    r
}

pub open spec fn spec_rewards_id() -> Seq<u8> {
    seq![6u8, 167u8, 213u8, 23u8, 25u8, 44u8, 97u8, 55u8, 206u8, 224u8, 146u8, 217u8, 182u8, 146u8, 62u8, 225u8, 204u8, 214u8, 25u8, 3u8, 250u8, 130u8, 184u8, 161u8, 97u8, 145u8, 87u8, 141u8, 128u8, 0u8, 0u8, 0u8]
}

/// The rewards sysvar account (`SysvarRewards111111111111111111111111111111`).
pub fn rewards_id() -> (r: Pubkey)
    ensures
        r@ == spec_rewards_id(),
{
    let r = Pubkey([6, 167, 213, 23, 25, 44, 97, 55, 206, 224, 146, 217, 182, 146, 62, 225, 204, 214, 25, 3, 250, 130, 184, 161, 97, 145, 87, 141, 128, 0, 0, 0]);
    assert(r@ =~= spec_rewards_id());
    r
}

pub open spec fn spec_stake_history_id() -> Seq<u8> {
    seq![6u8, 167u8, 213u8, 23u8, 25u8, 53u8, 132u8, 208u8, 254u8, 237u8, 155u8, 179u8, 67u8, 29u8, 19u8, 32u8, 107u8, 229u8, 68u8, 40u8, 27u8, 87u8, 184u8, 86u8, 108u8, 197u8, 55u8, 95u8, 244u8, 0u8, 0u8, 0u8]
}

/// The stake history sysvar account (`SysvarStakeHistory1111111111111111111111111`).
pub fn stake_history_id() -> (r: Pubkey)
    ensures
        r@ == spec_stake_history_id(),
{
    let r = Pubkey([6, 167, 213, 23, 25, 53, 132, 208, 254, 237, 155, 179, 67, 29, 19, 32, 107, 229, 68, 40, 27, 87, 184, 86, 108, 197, 55, 95, 244, 0, 0, 0]);
    assert(r@ =~= spec_stake_history_id());
    r
}

pub open spec fn spec_config_id() -> Seq<u8> {
    seq![6u8, 161u8, 216u8, 23u8, 165u8, 2u8, 5u8, 11u8, 104u8, 7u8, 145u8, 230u8, 206u8, 109u8, 184u8, 142u8, 30u8, 91u8, 113u8, 80u8, 246u8, 31u8, 198u8, 121u8, 10u8, 78u8, 180u8, 209u8, 0u8, 0u8, 0u8, 0u8]
}

/// The stake config account (`StakeConfig11111111111111111111111111111111`).
pub fn config_id() -> (r: Pubkey)
    ensures
        r@ == spec_config_id(),
{
    let r = Pubkey([6, 161, 216, 23, 165, 2, 5, 11, 104, 7, 145, 230, 206, 109, 184, 142, 30, 91, 113, 80, 246, 31, 198, 121, 10, 78, 180, 209, 0, 0, 0, 0]);
    assert(r@ =~= spec_config_id());
    r
}

pub open spec fn spec_program_id() -> Seq<u8> {
    seq![6u8, 161u8, 216u8, 23u8, 145u8, 55u8, 84u8, 42u8, 152u8, 52u8, 55u8, 189u8, 254u8, 42u8, 122u8, 178u8, 85u8, 127u8, 83u8, 92u8, 138u8, 120u8, 114u8, 43u8, 104u8, 164u8, 157u8, 192u8, 0u8, 0u8, 0u8, 0u8]
}

/// The stake program (`Stake11111111111111111111111111111111111111`).
pub fn program_id() -> (r: Pubkey)
    ensures
        r@ == spec_program_id(),
{
    let r = Pubkey([6, 161, 216, 23, 145, 55, 84, 42, 152, 52, 55, 189, 254, 42, 122, 178, 85, 127, 83, 92, 138, 120, 114, 43, 104, 164, 157, 192, 0, 0, 0, 0]);
    assert(r@ =~= spec_program_id());
    r
}

} // verus!
