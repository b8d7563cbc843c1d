//! The three ways into the contract: setting it up, changing it, asking it.
use crate::error::ContractError;
use crate::execute::{
    burn_response, mint_response, operator_response, outcome_view, send_outcome, token_response,
};
use crate::expiration::{or_never, BlockInfo, Env, MessageInfo};
use crate::metadata::extension_view;
use crate::model::ContractView;
use crate::msg::{asked, is_asked, ExecuteMsg, InstantiateMsg, QueryMsg, QueryResponse};
use crate::ownership::{expiry_text, ownership_response, OwnershipView};
use crate::query::{is_page, page_size, texts, NftInfoView, OwnerOfView};
use crate::response::{Response, ResponseView};
use crate::state::Cw721MetadataContract;
use crate::text::{opt_text, valid_address};
use crate::token::{approvals_view, visible, ApprovalView};
use crate::wire::receive_nft_json;
use vstd::prelude::*;

verus! {

/// An operation ends in one of two ways: where `error` names a reason it is
/// rejected with it and the state stays as it was; else the state is `next`
/// and the response is `response`.
pub open spec fn settles(
    error: Option<ContractError>,
    before: ContractView,
    next: ContractView,
    response: ResponseView,
    after: ContractView,
    r: Result<ResponseView, ContractError>,
) -> bool {
    match error {
        Some(e) => r == Err::<ResponseView, ContractError>(e) && after == before,
        None => r == Ok::<ResponseView, ContractError>(response) && after == next,
    }
}

/// A step in the passing of a role ends as the step says: with the role
/// as the step leaves it and a response that describes it, or rejected.
pub open spec fn role_settles(
    step: Result<OwnershipView, ContractError>,
    before: ContractView,
    minter: bool,
    after: ContractView,
    r: Result<ResponseView, ContractError>,
) -> bool {
    match step {
        Ok(role) => r == Ok::<ResponseView, ContractError>(
            ownership_response(role, expiry_text(role)),
        ) && after == if minter {
            before.with_minter(role)
        } else {
            before.with_creator(role)
        },
        Err(e) => r == Err::<ResponseView, ContractError>(e) && after == before,
    }
}

/// How the operation `msg`, asked for by `sender` in `block`, ends: `after`
/// is the state behind it and `r` what it hands back.
pub open spec fn execute_outcome(
    before: ContractView,
    block: BlockInfo,
    sender: Seq<char>,
    msg: ExecuteMsg,
    after: ContractView,
    r: Result<ResponseView, ContractError>,
) -> bool {
    match msg {
        ExecuteMsg::Mint { token_id, owner, token_uri, extension } => settles(
            before.mint_error(sender, token_id@, owner@),
            before,
            before.minted(token_id@, owner@, opt_text(token_uri), extension_view(extension)),
            mint_response(sender, owner@, token_id@),
            after,
            r,
        ),
        ExecuteMsg::TransferNft { recipient, token_id } => settles(
            before.transfer_error(block, sender, token_id@, recipient@),
            before,
            before.transferred(token_id@, recipient@),
            token_response("transfer_nft"@, sender, "recipient"@, recipient@, token_id@),
            after,
            r,
        ),
        ExecuteMsg::SendNft { contract, token_id, msg } => send_outcome(
            before,
            block,
            sender,
            contract@,
            token_id@,
            msg@,
            receive_nft_json(sender, token_id@, msg@),
            after,
            r,
        ),
        ExecuteMsg::Approve { spender, token_id, expires } => settles(
            before.approval_error(block, sender, token_id@, spender@, Some(or_never(expires))),
            before,
            before.approved(token_id@, spender@, or_never(expires)),
            token_response("approve"@, sender, "spender"@, spender@, token_id@),
            after,
            r,
        ),
        ExecuteMsg::Revoke { spender, token_id } => settles(
            before.approval_error(block, sender, token_id@, spender@, None),
            before,
            before.revoked(token_id@, spender@),
            token_response("revoke"@, sender, "spender"@, spender@, token_id@),
            after,
            r,
        ),
        ExecuteMsg::ApproveAll { operator, expires } => settles(
            ContractView::approve_all_error(block, operator@, or_never(expires)),
            before,
            before.approved_all(sender, operator@, or_never(expires)),
            operator_response("approve_all"@, sender, operator@),
            after,
            r,
        ),
        ExecuteMsg::RevokeAll { operator } => settles(
            ContractView::revoke_all_error(operator@),
            before,
            before.revoked_all(sender, operator@),
            operator_response("revoke_all"@, sender, operator@),
            after,
            r,
        ),
        ExecuteMsg::Burn { token_id } => settles(
            before.burn_error(block, sender, token_id@),
            before,
            before.burnt(token_id@),
            burn_response(sender, token_id@),
            after,
            r,
        ),
        ExecuteMsg::UpdateMinterOwnership(action) => role_settles(
            before.minter_step(block, sender, action@),
            before,
            true,
            after,
            r,
        ),
        ExecuteMsg::UpdateCreatorOwnership(action) => role_settles(
            before.creator_step(block, sender, action@),
            before,
            false,
            after,
            r,
        ),
        ExecuteMsg::Extension => r == Ok::<ResponseView, ContractError>(
            ResponseView::of(Seq::empty()),
        ) && after == before,
    }
}

/// `r` is the answer of the registry `state` to the question `msg` in
/// `block`.
pub open spec fn answers(
    state: ContractView,
    block: BlockInfo,
    msg: QueryMsg,
    r: Result<QueryResponse, ContractError>,
) -> bool {
    match msg {
        QueryMsg::OwnerOf { token_id, include_expired } => match r {
            Ok(QueryResponse::OwnerOf(x)) => state.owner_of(block, token_id@, asked(include_expired))
                == Ok::<OwnerOfView, ContractError>(x@),
            Err(e) => state.owner_of(block, token_id@, asked(include_expired)) == Err::<
                OwnerOfView,
                ContractError,
            >(e),
            _ => false,
        },
        QueryMsg::Approval { token_id, spender, include_expired } => match r {
            Ok(QueryResponse::Approval(x)) => state.approval(
                block,
                token_id@,
                spender@,
                asked(include_expired),
            ) == Ok::<ApprovalView, ContractError>(x.approval@),
            Err(e) => state.approval(block, token_id@, spender@, asked(include_expired)) == Err::<
                ApprovalView,
                ContractError,
            >(e),
            _ => false,
        },
        QueryMsg::Approvals { token_id, include_expired } => match r {
            Ok(QueryResponse::Approvals(x)) => state.has_token(token_id@) && approvals_view(
                x.approvals@,
            ) == visible(state.tokens[token_id@].approvals, block, asked(include_expired)),
            Err(e) => !state.has_token(token_id@) && e == ContractError::NotFound,
            _ => false,
        },
        QueryMsg::Operator { owner, operator, include_expired } => match r {
            Ok(QueryResponse::Operator(x)) => state.operator(
                block,
                owner@,
                operator@,
                asked(include_expired),
            ) == Ok::<ApprovalView, ContractError>(x.approval@),
            Err(e) => state.operator(block, owner@, operator@, asked(include_expired)) == Err::<
                ApprovalView,
                ContractError,
            >(e),
            _ => false,
        },
        QueryMsg::NumTokens => match r {
            Ok(QueryResponse::NumTokens(x)) => x.count == state.tokens.dom().len(),
            _ => false,
        },
        QueryMsg::ContractInfo => match r {
            Ok(QueryResponse::ContractInfo(x)) => x.name@ == state.name && x.symbol@ == state.symbol,
            _ => false,
        },
        QueryMsg::NftInfo { token_id } => match r {
            Ok(QueryResponse::NftInfo(x)) => state.nft_info(token_id@) == Ok::<
                NftInfoView,
                ContractError,
            >(x@),
            Err(e) => state.nft_info(token_id@) == Err::<NftInfoView, ContractError>(e),
            _ => false,
        },
        QueryMsg::AllNftInfo { token_id, include_expired } => match r {
            Ok(QueryResponse::AllNftInfo(x)) => state.owner_of(
                block,
                token_id@,
                asked(include_expired),
            ) == Ok::<OwnerOfView, ContractError>(x.access@) && state.nft_info(token_id@) == Ok::<
                NftInfoView,
                ContractError,
            >(x.info@),
            Err(e) => !state.has_token(token_id@) && e == ContractError::NotFound,
            _ => false,
        },
        QueryMsg::Tokens { owner, start_after, limit } => match r {
            Ok(QueryResponse::Tokens(x)) => valid_address(owner@) && is_page(
                texts(x.tokens@),
                state.owned_by(owner@),
                opt_text(start_after),
                page_size(limit),
            ),
            Err(e) => !valid_address(owner@) && e == ContractError::InvalidInput,
            _ => false,
        },
        QueryMsg::AllTokens { start_after, limit } => match r {
            Ok(QueryResponse::Tokens(x)) => is_page(
                texts(x.tokens@),
                state.tokens.dom(),
                opt_text(start_after),
                page_size(limit),
            ),
            _ => false,
        },
        QueryMsg::Minter => match r {
            Ok(QueryResponse::Minter(x)) => opt_text(x.minter) == state.minter.owner,
            _ => false,
        },
        QueryMsg::Ownership => match r {
            Ok(QueryResponse::Ownership(x)) => x@ == state.creator,
            _ => false,
        },
        QueryMsg::MinterOwnership => match r {
            Ok(QueryResponse::Ownership(x)) => x@ == state.minter,
            _ => false,
        },
    }
}

impl Cw721MetadataContract {
    /// Carries out the operation `msg` for the caller `info` in the block of
    /// `env`. On an error the registry stays as it was.
    pub fn execute(&mut self, env: &Env, info: &MessageInfo, msg: ExecuteMsg) -> (r: Result<
        Response,
        ContractError,
    >)
        requires
            old(self).wf(),
        ensures
            final(self).wf(),
            execute_outcome(
                old(self)@,
                env.block,
                info.sender@,
                msg,
                final(self)@,
                outcome_view(r),
            ),
    {
        match msg {
            ExecuteMsg::Mint { token_id, owner, token_uri, extension } => self.mint(
                info,
                token_id,
                owner,
                token_uri,
                extension,
            ),
            ExecuteMsg::Approve { spender, token_id, expires } => self.approve(
                env,
                info,
                spender,
                token_id,
                expires,
            ),
            ExecuteMsg::Revoke { spender, token_id } => self.revoke(env, info, spender, token_id),
            ExecuteMsg::ApproveAll { operator, expires } => self.approve_all(
                env,
                info,
                operator,
                expires,
            ),
            ExecuteMsg::RevokeAll { operator } => self.revoke_all(env, info, operator),
            ExecuteMsg::TransferNft { recipient, token_id } => self.transfer_nft(
                env,
                info,
                recipient,
                token_id,
            ),
            ExecuteMsg::SendNft { contract, token_id, msg } => self.send_nft(
                env,
                info,
                contract,
                token_id,
                msg,
            ),
            ExecuteMsg::Burn { token_id } => self.burn(env, info, token_id),
            ExecuteMsg::UpdateMinterOwnership(action) => self.update_minter_ownership(
                env,
                info,
                action,
            ),
            ExecuteMsg::UpdateCreatorOwnership(action) => self.update_creator_ownership(
                env,
                info,
                action,
            ),
            ExecuteMsg::Extension => Ok(Response::new()),
        }
    }

    /// Answers the question `msg` in the block of `env`.
    pub fn query(&self, env: &Env, msg: QueryMsg) -> (r: Result<QueryResponse, ContractError>)
        requires
            self.wf(),
        ensures
            answers(self@, env.block, msg, r),
    {
        match msg {
            QueryMsg::Minter => Ok(QueryResponse::Minter(self.minter())),
            QueryMsg::ContractInfo => Ok(QueryResponse::ContractInfo(self.contract_info())),
            QueryMsg::NftInfo { token_id } => match self.nft_info(token_id) {
                Ok(x) => Ok(QueryResponse::NftInfo(x)),
                Err(e) => Err(e),
            },
            QueryMsg::OwnerOf { token_id, include_expired } => match self.owner_of(
                env,
                token_id,
                is_asked(include_expired),
            ) {
                Ok(x) => Ok(QueryResponse::OwnerOf(x)),
                Err(e) => Err(e),
            },
            QueryMsg::AllNftInfo { token_id, include_expired } => match self.all_nft_info(
                env,
                token_id,
                is_asked(include_expired),
            ) {
                Ok(x) => Ok(QueryResponse::AllNftInfo(x)),
                Err(e) => Err(e),
            },
            QueryMsg::Operator { owner, operator, include_expired } => match self.operator(
                env,
                owner,
                operator,
                is_asked(include_expired),
            ) {
                Ok(x) => Ok(QueryResponse::Operator(x)),
                Err(e) => Err(e),
            },
            QueryMsg::NumTokens => Ok(QueryResponse::NumTokens(self.num_tokens())),
            QueryMsg::Tokens { owner, start_after, limit } => match self.tokens(
                owner,
                start_after,
                limit,
            ) {
                Ok(x) => Ok(QueryResponse::Tokens(x)),
                Err(e) => Err(e),
            },
            QueryMsg::AllTokens { start_after, limit } => Ok(
                QueryResponse::Tokens(self.all_tokens(start_after, limit)),
            ),
            QueryMsg::Approval { token_id, spender, include_expired } => match self.approval(
                env,
                token_id,
                spender,
                is_asked(include_expired),
            ) {
                Ok(x) => Ok(QueryResponse::Approval(x)),
                Err(e) => Err(e),
            },
            QueryMsg::Approvals { token_id, include_expired } => match self.approvals(
                env,
                token_id,
                is_asked(include_expired),
            ) {
                Ok(x) => Ok(QueryResponse::Approvals(x)),
                Err(e) => Err(e),
            },
            QueryMsg::Ownership => Ok(QueryResponse::Ownership(self.ownership())),
            QueryMsg::MinterOwnership => Ok(QueryResponse::Ownership(self.minter_ownership())),
        }
    }
}

/// Sets the contract up. See [`Cw721MetadataContract::instantiate`].
pub fn instantiate(
    contract: &mut Cw721MetadataContract,
    env: &Env,
    info: &MessageInfo,
    msg: InstantiateMsg,
) -> (r: Result<Response, ContractError>)
    requires
        old(contract).wf(),
    ensures
        final(contract).wf(),
        match r {
            Ok(response) => {
                &&& valid_address(msg.minter@)
                &&& final(contract)@ == old(contract)@.instantiated(
                    msg.name@,
                    msg.symbol@,
                    msg.minter@,
                )
                &&& response@ == ResponseView::of(Seq::empty())
            },
            Err(e) => {
                &&& !valid_address(msg.minter@)
                &&& e == ContractError::InvalidInput
                &&& final(contract)@ == old(contract)@
            },
        },
{
    contract.instantiate(env, info, msg)
}

/// Carries out an operation. See [`Cw721MetadataContract::execute`].
pub fn execute(
    contract: &mut Cw721MetadataContract,
    env: &Env,
    info: &MessageInfo,
    msg: ExecuteMsg,
) -> (r: Result<Response, ContractError>)
    requires
        old(contract).wf(),
    ensures
        final(contract).wf(),
        execute_outcome(
            old(contract)@,
            env.block,
            info.sender@,
            msg,
            final(contract)@,
            outcome_view(r),
        ),
{
    contract.execute(env, info, msg)
}

/// Answers a question. See [`Cw721MetadataContract::query`].
pub fn query(contract: &Cw721MetadataContract, env: &Env, msg: QueryMsg) -> (r: Result<
    QueryResponse,
    ContractError,
>)
    requires
        contract.wf(),
    ensures
        answers(contract@, env.block, msg, r),
{
    contract.query(env, msg)
}

} // verus!
