//! The messages that the contract takes.
use crate::expiration::Expiration;
use crate::metadata::Metadata;
use crate::ownership::{Action, Ownership};
use crate::query::{
    AllNftInfoResponse, ApprovalResponse, ApprovalsResponse, ContractInfoResponse, MinterResponse,
    NftInfoResponse, NumTokensResponse, OperatorResponse, OwnerOfResponse, TokensResponse,
};
use vstd::prelude::*;

verus! {

/// Sets the contract up.
#[derive(Debug, PartialEq, Eq)]
pub struct InstantiateMsg {
    /// Name of the NFT contract
    pub name: String,
    /// Symbol of the NFT contract
    pub symbol: String,
    /// The minter is the only one who can create new NFTs. It is also
    /// the contract's first owner.
    pub minter: String,
}

/// An operation on the registry.
#[derive(Debug, PartialEq, Eq)]
pub enum ExecuteMsg {
    /// Transfer is a base message to move a token to another account without triggering actions
    TransferNft { recipient: String, token_id: String },
    /// Send is a base message to transfer a token to a contract and trigger an action
    /// on the receiving contract.
    SendNft { contract: String, token_id: String, msg: Vec<u8> },
    /// Allows operator to transfer / send the token from the owner's account.
    /// If expiration is set, then this allowance has a time/height limit
    Approve { spender: String, token_id: String, expires: Option<Expiration> },
    /// Remove previously granted Approval
    Revoke { spender: String, token_id: String },
    /// Allows operator to transfer / send any token from the owner's account.
    /// If expiration is set, then this allowance has a time/height limit
    ApproveAll { operator: String, expires: Option<Expiration> },
    /// Remove previously granted ApproveAll permission
    RevokeAll { operator: String },
    /// Mint a new NFT, can only be called by the contract minter
    Mint {
        /// Unique ID of the NFT
        token_id: String,
        /// The owner of the newly minter NFT
        owner: String,
        /// Universal resource identifier for this NFT
        token_uri: Option<String>,
        /// The album record of the NFT
        extension: Option<Metadata>,
    },
    /// Burn an NFT the sender has access to
    Burn { token_id: String },
    /// Take a step in passing the minter role
    UpdateMinterOwnership(Action),
    /// Take a step in passing the contract's ownership
    UpdateCreatorOwnership(Action),
    /// Do nothing
    Extension,
}

/// A question to the registry.
#[derive(Debug, PartialEq, Eq)]
pub enum QueryMsg {
    /// Return the owner of the given token, error if token does not exist
    OwnerOf {
        token_id: String,
        /// unset or false will filter out expired approvals, you must set to true to see them
        include_expired: Option<bool>,
    },
    /// Return the approval of a spender on a token
    Approval { token_id: String, spender: String, include_expired: Option<bool> },
    /// Return approvals that a token has
    Approvals { token_id: String, include_expired: Option<bool> },
    /// Return approval of a given operator for all tokens of an owner, error if not set
    Operator { owner: String, operator: String, include_expired: Option<bool> },
    /// Total number of tokens issued
    NumTokens,
    /// Returns top-level metadata about the contract
    ContractInfo,
    /// Returns metadata about one particular token
    NftInfo { token_id: String },
    /// Returns the result of both `NftInfo` and `OwnerOf` as one query
    AllNftInfo {
        token_id: String,
        /// unset or false will filter out expired approvals, you must set to true to see them
        include_expired: Option<bool>,
    },
    /// Returns all tokens owned by the given address
    Tokens { owner: String, start_after: Option<String>, limit: Option<u32> },
    /// Lists all token_ids controlled by the contract
    AllTokens { start_after: Option<String>, limit: Option<u32> },
    /// Return the minter
    Minter,
    /// Return the role of the contract's owner
    Ownership,
    /// Return the minter role with what is pending on it
    MinterOwnership,
}

/// The answer to a question, by the kind of the question.
#[derive(Debug, PartialEq, Eq)]
pub enum QueryResponse {
    OwnerOf(OwnerOfResponse),
    Approval(ApprovalResponse),
    Approvals(ApprovalsResponse),
    Operator(OperatorResponse),
    NumTokens(NumTokensResponse),
    ContractInfo(ContractInfoResponse),
    NftInfo(NftInfoResponse),
    AllNftInfo(AllNftInfoResponse),
    Tokens(TokensResponse),
    Minter(MinterResponse),
    Ownership(Ownership),
}

/// Whether approvals that have ended are asked for: not unless it is said.
pub open spec fn asked(include_expired: Option<bool>) -> bool {
    match include_expired {
        Some(b) => b,
        None => false,
    }
}

/// Whether approvals that have ended are asked for.
pub fn is_asked(include_expired: Option<bool>) -> (r: bool)
    ensures
        r == asked(include_expired),
{
    match include_expired {
        Some(b) => b,
        None => false,
    }
}

} // verus!
