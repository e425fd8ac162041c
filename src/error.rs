use vstd::prelude::*;

verus! {

/// Failures specific to the stake program, carried in `InstructionError::CustomError`.
#[derive(Clone, Copy, Debug, PartialEq, Eq, Structural)]
pub enum StakeError {
    /// The vote account has earned no credits since the last redemption.
    NoCreditsToRedeem,
    /// A lockup blocks the operation and the custodian did not sign.
    LockupInForce,
}

/// The result kinds of instruction processing.
#[derive(Clone, Copy, Debug, PartialEq, Eq, Structural)]
pub enum InstructionError {
    /// An account is not the one the instruction expects in its position.
    InvalidArgument,
    /// The instruction bytes do not decode, or too few accounts were passed.
    InvalidInstructionData,
    /// An account's contents are not of the expected kind or state.
    InvalidAccountData,
    /// The account holds too few lamports for the operation.
    InsufficientFunds,
    /// A required signature is missing.
    MissingRequiredSignature,
    /// `Initialize` on an account that is already initialized.
    AccountAlreadyInitialized,
    /// `Deactivate` on a stake that is already deactivated.
    StakeAlreadyDeactivated,
    /// The rewards pool cannot cover a redemption.
    RewardsPoolDepleted,
    /// A lamport balance would exceed the largest representable amount.
    ArithmeticOverflow,
    /// A program-specific error, by its numeric code.
    CustomError(u32),
}

impl StakeError {
    pub open spec fn spec_code(self) -> u32 {
        match self {
            StakeError::NoCreditsToRedeem => 0,
            StakeError::LockupInForce => 1,
        }
    }

    /// The stable numeric code of this error.
    pub fn code(&self) -> (r: u32)
        ensures
            r == self.spec_code(),
    {
        match self {
            StakeError::NoCreditsToRedeem => 0,
            StakeError::LockupInForce => 1,
        }
    }

    /// The error with the given numeric code, if any.
    pub fn from_code(code: u32) -> (r: Option<StakeError>)
        ensures
            r matches Some(e) ==> e.spec_code() == code,
            r is None <==> code > 1,
    {
        if code == 0 {
            Some(StakeError::NoCreditsToRedeem)
        } else if code == 1 {
            Some(StakeError::LockupInForce)
        } else {
            None
        }
    }

    /// The name of this error type.
    pub fn type_of() -> (r: &'static str)
        ensures
            r@ == "StakeError"@,
    {
        "StakeError"
    }

    /// A human-readable description.
    pub fn message(&self) -> (r: &'static str)
        ensures
            *self == StakeError::NoCreditsToRedeem ==> r@ == "not enough credits to redeem"@,
            *self == StakeError::LockupInForce ==> r@ == "lockup has not yet expired"@,
    {
        match self {
            StakeError::NoCreditsToRedeem => "not enough credits to redeem",
            StakeError::LockupInForce => "lockup has not yet expired",
        }
    }
}

impl From<StakeError> for InstructionError {
    fn from(e: StakeError) -> (r: InstructionError) {
        InstructionError::CustomError(e.code())
    }
}

impl vstd::std_specs::convert::FromSpecImpl<StakeError> for InstructionError {
    open spec fn obeys_from_spec() -> bool {
        true
    }

    open spec fn from_spec(e: StakeError) -> InstructionError {
        InstructionError::CustomError(e.spec_code())
    }
}

/// The instruction error that carries `e`.
pub open spec fn custom(e: StakeError) -> InstructionError {
    InstructionError::CustomError(e.spec_code())
}

} // verus!
