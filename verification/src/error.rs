use vstd::prelude::*;

use crate::addr::Address;
use crate::member::MemberParseError;

verus! {

/// Why a submitted transaction was rejected before or by the network.
#[derive(Clone, Copy, Debug, PartialEq, Eq)]
pub enum SubmitReason {
    /// An account that an instruction flags as a required signer has no
    /// matching signer attached to the transaction.
    MissingSignature { address: Address },
    /// The network returned a terminal error for the submission.
    Network,
}

/// Every failure a single command invocation can end with. Each one is fatal:
/// no command retries or recovers.
#[derive(Clone, Copy, Debug, PartialEq, Eq)]
pub enum CliError {
    /// A member entry does not consist of exactly two comma-separated fields.
    MalformedEntry { index: usize },
    /// A member entry's first field is not the textual form of an address.
    InvalidAddress { index: usize },
    /// A member entry's second field is not a decimal integer in 0..=255.
    InvalidPermissionMask { index: usize },
    /// A private-key file could not be read or decoded.
    KeypairLoad,
    /// No valid derived address exists within the bump search range.
    Derivation,
    /// The program-configuration account is missing or undecodable.
    AccountFetch,
    /// Submitting the transaction failed.
    Submission { reason: SubmitReason },
}

/// The command-level error that reports a member-entry failure.
pub open spec fn spec_cli_of_member_error(e: MemberParseError) -> CliError {
    match e {
        MemberParseError::MalformedEntry { index } => CliError::MalformedEntry { index },
        MemberParseError::InvalidAddress { index } => CliError::InvalidAddress { index },
        MemberParseError::InvalidPermissionMask { index } => CliError::InvalidPermissionMask {
            index,
        },
    }
}

pub fn cli_of_member_error(e: MemberParseError) -> (r: CliError)
    ensures
        r == spec_cli_of_member_error(e),
{
    match e {
        MemberParseError::MalformedEntry { index } => CliError::MalformedEntry { index },
        MemberParseError::InvalidAddress { index } => CliError::InvalidAddress { index },
        MemberParseError::InvalidPermissionMask { index } => CliError::InvalidPermissionMask {
            index,
        },
    }
}

} // verus!
