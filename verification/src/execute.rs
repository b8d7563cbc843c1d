//! The operations that change the registry.
use crate::assoc::{as_map, lemma_entry, lemma_insert, lemma_remove, lemma_update};
use crate::error::ContractError;
use crate::expiration::{or_never, unwrap_or_never, BlockInfo, Env, Expiration, MessageInfo};
use crate::metadata::{extension_view, Metadata};
use crate::model::ContractView;
use crate::msg::InstantiateMsg;
use crate::ownership::{
    expiry_text, is_account, ownership_response, Action, Ownership, OwnershipView,
};
use crate::response::{attr, Notification, NotificationView, Response, ResponseView};
use crate::state::{
    contains_text, find_grant, find_token, grant_pairs, has_active_grant, ids_ascend,
    insert_position, lemma_ascending_distinct, lemma_token_removed, lemma_token_replaced, text_at,
    token_pairs, Cw721MetadataContract, OperatorGrant,
};
use crate::text::{clone_opt_string, is_valid_address, opt_text, valid_address};
use crate::token::{
    approvals_view, distinct_spenders, for_another, has_active_approval, lemma_filter_distinct,
    remove_spender, Approval, ApprovalView, Token, TokenInfo,
};
use crate::wire::{receive_nft_body, receive_nft_json};
use vstd::prelude::*;

verus! {

/// What a mint hands back.
pub open spec fn mint_response(sender: Seq<char>, owner: Seq<char>, id: Seq<char>) -> ResponseView {
    ResponseView::of(
        Seq::empty().push(attr("action"@, "mint"@)).push(attr("minter"@, sender)).push(
            attr("owner"@, owner),
        ).push(attr("token_id"@, id)),
    )
}

/// What an operation on one token hands back: what was done, by whom, one
/// more account under the name `role`, and the token.
pub open spec fn token_response(
    action: Seq<char>,
    sender: Seq<char>,
    role: Seq<char>,
    account: Seq<char>,
    id: Seq<char>,
) -> ResponseView {
    ResponseView::of(
        Seq::empty().push(attr("action"@, action)).push(attr("sender"@, sender)).push(
            attr(role, account),
        ).push(attr("token_id"@, id)),
    )
}

/// What a send hands back: the attributes of the move, and the one message
/// for the contract that has the token now.
pub open spec fn send_response(
    sender: Seq<char>,
    contract: Seq<char>,
    id: Seq<char>,
    payload: Seq<u8>,
    body: Seq<u8>,
) -> ResponseView {
    ResponseView {
        messages: Seq::empty().push(
            NotificationView { contract_addr: contract, sender, token_id: id, payload, body },
        ),
        attributes: token_response("send_nft"@, sender, "recipient"@, contract, id).attributes,
    }
}

/// What giving or taking back a grant over all tokens hands back.
pub open spec fn operator_response(
    action: Seq<char>,
    sender: Seq<char>,
    operator: Seq<char>,
) -> ResponseView {
    ResponseView::of(
        Seq::empty().push(attr("action"@, action)).push(attr("sender"@, sender)).push(
            attr("operator"@, operator),
        ),
    )
}

/// What a burn hands back.
pub open spec fn burn_response(sender: Seq<char>, id: Seq<char>) -> ResponseView {
    ResponseView::of(
        Seq::empty().push(attr("action"@, "burn"@)).push(attr("sender"@, sender)).push(
            attr("token_id"@, id),
        ),
    )
}

/// How a send ends, given the body of the message where one could be made:
/// it is rejected as a transfer to the contract would be, or for want of a
/// body; else the token has moved and the message is queued.
pub open spec fn send_outcome(
    before: ContractView,
    block: BlockInfo,
    sender: Seq<char>,
    contract: Seq<char>,
    id: Seq<char>,
    payload: Seq<u8>,
    body: Option<Seq<u8>>,
    after: ContractView,
    r: Result<ResponseView, ContractError>,
) -> bool {
    match before.transfer_error(block, sender, id, contract) {
        Some(e) => r == Err::<ResponseView, ContractError>(e) && after == before,
        None => match body {
            None => r == Err::<ResponseView, ContractError>(ContractError::Serialization) && after
                == before,
            Some(b) => r == Ok::<ResponseView, ContractError>(
                send_response(sender, contract, id, payload, b),
            ) && after == before.transferred(id, contract),
        },
    }
}

/// The outcome of an operation with the response as a mathematical value.
pub open spec fn outcome_view(r: Result<Response, ContractError>) -> Result<
    ResponseView,
    ContractError,
> {
    match r {
        Ok(response) => Ok(response@),
        Err(e) => Err(e),
    }
}

fn token_attributes(action: &str, sender: &String, role: &str, account: &String, id: &String) -> (r:
    Response)
    ensures
        r@ == token_response(action@, sender@, role@, account@, id@),
{
    Response::new().add_attribute("action", action.to_owned()).add_attribute(
        "sender",
        sender.clone(),
    ).add_attribute(role, account.clone()).add_attribute("token_id", id.clone())
}

fn operator_attributes(action: &str, sender: &String, operator: &String) -> (r: Response)
    ensures
        r@ == operator_response(action@, sender@, operator@),
{
    Response::new().add_attribute("action", action.to_owned()).add_attribute(
        "sender",
        sender.clone(),
    ).add_attribute("operator", operator.clone())
}

impl Default for Cw721MetadataContract {
    /// The registry before anything was set up.
    fn default() -> (r: Self)
        ensures
            r.wf(),
            r@ == ContractView::blank(),
    {
        let r = Cw721MetadataContract {
            name: String::new(),
            symbol: String::new(),
            minter: Ownership::new(None),
            creator: Ownership::new(None),
            tokens: Vec::new(),
            retired: Vec::new(),
            operators: Vec::new(),
        };
        proof {
            assert(r@.tokens =~= Map::empty());
            assert(r@.retired =~= Set::empty());
            assert(r@.operators =~= Map::empty());
        }
        r
    }
}

impl Cw721MetadataContract {
    /// Sets the contract up: gives the collection its name and symbol and
    /// puts the minter that the message names into both roles. It is
    /// rejected with `InvalidInput` where that minter cannot name an account.
    pub fn instantiate(&mut self, env: &Env, info: &MessageInfo, msg: InstantiateMsg) -> (r: Result<
        Response,
        ContractError,
    >)
        requires
            old(self).wf(),
        ensures
            final(self).wf(),
            match r {
                Ok(response) => {
                    &&& valid_address(msg.minter@)
                    &&& final(self)@ == old(self)@.instantiated(msg.name@, msg.symbol@, msg.minter@)
                    &&& response@ == ResponseView::of(Seq::empty())
                },
                Err(e) => {
                    &&& !valid_address(msg.minter@)
                    &&& e == ContractError::InvalidInput
                    &&& final(self)@ == old(self)@
                },
            },
    {
        if !is_valid_address(&msg.minter) {
            return Err(ContractError::InvalidInput);
        }
        self.name = msg.name;
        self.symbol = msg.symbol;
        self.minter = Ownership::new(Some(msg.minter.clone()));
        self.creator = Ownership::new(Some(msg.minter));
        Ok(Response::new())
    }

    /// Mints the token `token_id` for `owner`. Only the minter can; the
    /// owner must name an account; the ID must be free.
    pub fn mint(
        &mut self,
        info: &MessageInfo,
        token_id: String,
        owner: String,
        token_uri: Option<String>,
        extension: Option<Metadata>,
    ) -> (r: Result<Response, ContractError>)
        requires
            old(self).wf(),
        ensures
            final(self).wf(),
            match r {
                Ok(response) => {
                    &&& old(self)@.mint_error(info.sender@, token_id@, owner@) is None
                    &&& final(self)@ == old(self)@.minted(
                        token_id@,
                        owner@,
                        opt_text(token_uri),
                        extension_view(extension),
                    )
                    &&& response@ == mint_response(info.sender@, owner@, token_id@)
                },
                Err(e) => {
                    &&& old(self)@.mint_error(info.sender@, token_id@, owner@) == Some(e)
                    &&& final(self)@ == old(self)@
                },
            },
    {
        if !is_account(&self.minter.owner, &info.sender) {
            return Err(ContractError::Unauthorized);
        }
        if !is_valid_address(&owner) {
            return Err(ContractError::InvalidInput);
        }
        if find_token(&self.tokens, &token_id).is_some() || contains_text(
            &self.retired,
            &token_id,
        ) {
            return Err(ContractError::AlreadyExists);
        }
        let at = insert_position(&self.tokens, &token_id);
        let response = Response::new().add_attribute("action", "mint".to_owned()).add_attribute(
            "minter",
            info.sender.clone(),
        ).add_attribute("owner", owner.clone()).add_attribute("token_id", token_id.clone());
        let token = Token {
            token_id,
            info: TokenInfo { owner, approvals: Vec::new(), token_uri, extension },
        };
        let ghost before = self.tokens@;
        let ghost id = token.token_id@;
        let ghost held = token.info@;
        self.tokens.insert(at, token);
        proof {
            assert(held.approvals =~= Seq::<ApprovalView>::empty());
            assert(token_pairs(self.tokens@) =~= token_pairs(before).insert(at as int, (id, held)));
            lemma_ascending_distinct(before);
            lemma_insert(token_pairs(before), at as int, id, held);
            assert(ids_ascend(self.tokens@));
            assert forall|i: int| 0 <= i < self.tokens.len() implies (#[trigger] self.tokens[i]).info@.wf() by {
                if i < at {
                    assert(self.tokens[i] == before[i]);
                } else if i > at {
                    assert(self.tokens[i] == before[i - 1]);
                }
            }
            assert forall|i: int, j: int|
                0 <= i < self.retired.len() && 0 <= j < self.tokens.len() implies (
            #[trigger] self.retired[i])@ != (#[trigger] self.tokens[j]).token_id@ by {
                if j < at {
                    assert(self.tokens[j] == before[j]);
                } else if j > at {
                    assert(self.tokens[j] == before[j - 1]);
                } else {
                    assert(!text_at(self.retired@, i, id));
                }
            }
        }
        Ok(response)
    }

    /// Tells whether `who` may move or burn the token at index `i` in
    /// `block`.
    pub fn check_can_send(&self, block: &BlockInfo, who: &String, i: usize) -> (r: bool)
        requires
            self.wf(),
            i < self.tokens.len(),
        ensures
            r == self@.can_send(*block, who@, self.tokens[i as int].token_id@),
            self@.has_token(self.tokens[i as int].token_id@),
            self@.tokens[self.tokens[i as int].token_id@] == self.tokens[i as int].info@,
    {
        proof {
            lemma_ascending_distinct(self.tokens@);
            lemma_entry(token_pairs(self.tokens@), i as int);
        }
        let info = &self.tokens[i].info;
        info.owner == *who || has_active_approval(&info.approvals, who, block) || has_active_grant(
            &self.operators,
            &info.owner,
            who,
            block,
        )
    }

    /// Tells whether `who` may set and lift approvals on the token at index
    /// `i` in `block`.
    pub fn check_can_approve(&self, block: &BlockInfo, who: &String, i: usize) -> (r: bool)
        requires
            self.wf(),
            i < self.tokens.len(),
        ensures
            r == self@.can_approve(*block, who@, self.tokens[i as int].token_id@),
            self@.has_token(self.tokens[i as int].token_id@),
            self@.tokens[self.tokens[i as int].token_id@] == self.tokens[i as int].info@,
    {
        proof {
            lemma_ascending_distinct(self.tokens@);
            lemma_entry(token_pairs(self.tokens@), i as int);
        }
        let info = &self.tokens[i].info;
        info.owner == *who || has_active_grant(&self.operators, &info.owner, who, block)
    }

    /// Gives the token at index `i` to `recipient` and drops its approvals.
    fn move_token(&mut self, i: usize, recipient: String)
        requires
            old(self).wf(),
            i < old(self).tokens.len(),
            valid_address(recipient@),
        ensures
            final(self).wf(),
            final(self)@ == old(self)@.transferred(old(self).tokens[i as int].token_id@, recipient@),
    {
        let ghost before = *self;
        proof {
            lemma_ascending_distinct(self.tokens@);
            lemma_entry(token_pairs(self.tokens@), i as int);
        }
        let taken = self.tokens.remove(i);
        let moved = Token {
            token_id: taken.token_id,
            info: TokenInfo {
                owner: recipient,
                approvals: Vec::new(),
                token_uri: taken.info.token_uri,
                extension: taken.info.extension,
            },
        };
        proof {
            assert(moved.info@.approvals =~= Seq::<ApprovalView>::empty());
        }
        self.tokens.insert(i, moved);
        proof {
            lemma_token_replaced(&before, self, i as int);
        }
    }

    /// Moves the token `token_id` to `recipient`. The caller must be its
    /// owner, hold an approval on it that has not ended, or hold a grant of
    /// its owner that has not ended. The token's approvals are dropped.
    pub fn transfer_nft(
        &mut self,
        env: &Env,
        info: &MessageInfo,
        recipient: String,
        token_id: String,
    ) -> (r: Result<Response, ContractError>)
        requires
            old(self).wf(),
        ensures
            final(self).wf(),
            match r {
                Ok(response) => {
                    &&& old(self)@.transfer_error(env.block, info.sender@, token_id@, recipient@) is None
                    &&& final(self)@ == old(self)@.transferred(token_id@, recipient@)
                    &&& response@ == token_response(
                        "transfer_nft"@,
                        info.sender@,
                        "recipient"@,
                        recipient@,
                        token_id@,
                    )
                },
                Err(e) => {
                    &&& old(self)@.transfer_error(env.block, info.sender@, token_id@, recipient@)
                        == Some(e)
                    &&& final(self)@ == old(self)@
                },
            },
    {
        let i = match find_token(&self.tokens, &token_id) {
            Some(i) => i,
            None => {
                return Err(ContractError::NotFound);
            },
        };
        if !self.check_can_send(&env.block, &info.sender, i) {
            return Err(ContractError::Unauthorized);
        }
        if !is_valid_address(&recipient) {
            return Err(ContractError::InvalidInput);
        }
        let response = token_attributes(
            "transfer_nft",
            &info.sender,
            "recipient",
            &recipient,
            &token_id,
        );
        self.move_token(i, recipient);
        Ok(response)
    }

    /// Sends the token `token_id` to `contract`, given the body of the
    /// message that tells the contract so, or `None` where none could be
    /// made. The token moves as in a transfer, and the message is queued for
    /// the environment to deliver.
    pub fn send_nft_encoded(
        &mut self,
        env: &Env,
        info: &MessageInfo,
        contract: String,
        token_id: String,
        msg: Vec<u8>,
        body: Option<Vec<u8>>,
    ) -> (r: Result<Response, ContractError>)
        requires
            old(self).wf(),
        ensures
            final(self).wf(),
            send_outcome(
                old(self)@,
                env.block,
                info.sender@,
                contract@,
                token_id@,
                msg@,
                match body {
                    Some(b) => Some(b@),
                    None => None,
                },
                final(self)@,
                outcome_view(r),
            ),
    {
        let i = match find_token(&self.tokens, &token_id) {
            Some(i) => i,
            None => {
                return Err(ContractError::NotFound);
            },
        };
        if !self.check_can_send(&env.block, &info.sender, i) {
            return Err(ContractError::Unauthorized);
        }
        if !is_valid_address(&contract) {
            return Err(ContractError::InvalidInput);
        }
        let body = match body {
            Some(b) => b,
            None => {
                return Err(ContractError::Serialization);
            },
        };
        let attributes = token_attributes(
            "send_nft",
            &info.sender,
            "recipient",
            &contract,
            &token_id,
        );
        let message = Notification {
            contract_addr: contract.clone(),
            sender: info.sender.clone(),
            token_id,
            payload: msg,
            body,
        };
        let response = attributes.add_message(message);
        self.move_token(i, contract);
        Ok(response)
    }

    /// Sends the token `token_id` to `contract` with the payload `msg`: the
    /// token moves as in a transfer, and one message that carries the sender,
    /// the token and the payload is queued for the contract.
    pub fn send_nft(
        &mut self,
        env: &Env,
        info: &MessageInfo,
        contract: String,
        token_id: String,
        msg: Vec<u8>,
    ) -> (r: Result<Response, ContractError>)
        requires
            old(self).wf(),
        ensures
            final(self).wf(),
            send_outcome(
                old(self)@,
                env.block,
                info.sender@,
                contract@,
                token_id@,
                msg@,
                receive_nft_json(info.sender@, token_id@, msg@),
                final(self)@,
                outcome_view(r),
            ),
    {
        let body = receive_nft_body(&info.sender, &token_id, &msg);
        self.send_nft_encoded(env, info, contract, token_id, msg, body)
    }

    /// Burns the token `token_id`. The caller must be allowed to move it.
    /// The token is gone with its approvals, and its ID is never given out
    /// again.
    pub fn burn(&mut self, env: &Env, info: &MessageInfo, token_id: String) -> (r: Result<
        Response,
        ContractError,
    >)
        requires
            old(self).wf(),
        ensures
            final(self).wf(),
            match r {
                Ok(response) => {
                    &&& old(self)@.burn_error(env.block, info.sender@, token_id@) is None
                    &&& final(self)@ == old(self)@.burnt(token_id@)
                    &&& response@ == burn_response(info.sender@, token_id@)
                },
                Err(e) => {
                    &&& old(self)@.burn_error(env.block, info.sender@, token_id@) == Some(e)
                    &&& final(self)@ == old(self)@
                },
            },
    {
        let i = match find_token(&self.tokens, &token_id) {
            Some(i) => i,
            None => {
                return Err(ContractError::NotFound);
            },
        };
        if !self.check_can_send(&env.block, &info.sender, i) {
            return Err(ContractError::Unauthorized);
        }
        let response = Response::new().add_attribute("action", "burn".to_owned()).add_attribute(
            "sender",
            info.sender.clone(),
        ).add_attribute("token_id", token_id.clone());
        let ghost before = *self;
        let taken = self.tokens.remove(i);
        self.retired.push(taken.token_id);
        proof {
            lemma_token_removed(&before, self, i as int);
        }
        Ok(response)
    }

    /// Sets the approvals of the token at index `i`.
    fn set_approvals(&mut self, i: usize, approvals: Vec<Approval>)
        requires
            old(self).wf(),
            i < old(self).tokens.len(),
            distinct_spenders(approvals_view(approvals@)),
        ensures
            final(self).wf(),
            final(self)@ == (ContractView {
                tokens: old(self)@.tokens.insert(
                    old(self).tokens[i as int].token_id@,
                    old(self).tokens[i as int].info@.with_approvals(approvals_view(approvals@)),
                ),
                ..old(self)@
            }),
    {
        let ghost before = *self;
        let taken = self.tokens.remove(i);
        let changed = Token {
            token_id: taken.token_id,
            info: TokenInfo {
                owner: taken.info.owner,
                approvals,
                token_uri: taken.info.token_uri,
                extension: taken.info.extension,
            },
        };
        self.tokens.insert(i, changed);
        proof {
            lemma_token_replaced(&before, self, i as int);
        }
    }

    /// Lifts the approval for `spender` on the token `token_id` and, where
    /// `add` names an end, sets a new one that ends there.
    fn update_approvals(
        &mut self,
        env: &Env,
        info: &MessageInfo,
        spender: &String,
        token_id: &String,
        add: Option<Expiration>,
    ) -> (r: Result<(), ContractError>)
        requires
            old(self).wf(),
        ensures
            final(self).wf(),
            match r {
                Ok(_) => {
                    &&& old(self)@.approval_error(env.block, info.sender@, token_id@, spender@, add) is None
                    &&& final(self)@ == match add {
                        Some(expires) => old(self)@.approved(token_id@, spender@, expires),
                        None => old(self)@.revoked(token_id@, spender@),
                    }
                },
                Err(e) => {
                    &&& old(self)@.approval_error(env.block, info.sender@, token_id@, spender@, add)
                        == Some(e)
                    &&& final(self)@ == old(self)@
                },
            },
    {
        let i = match find_token(&self.tokens, token_id) {
            Some(i) => i,
            None => {
                return Err(ContractError::NotFound);
            },
        };
        if !self.check_can_approve(&env.block, &info.sender, i) {
            return Err(ContractError::Unauthorized);
        }
        if !is_valid_address(spender) {
            return Err(ContractError::InvalidInput);
        }
        let mut approvals = remove_spender(&self.tokens[i].info.approvals, spender);
        proof {
            lemma_filter_distinct(approvals_view(self.tokens[i as int].info.approvals@), for_another(spender@));
        }
        match add {
            Some(expires) => {
                if expires.is_expired(&env.block) {
                    return Err(ContractError::Expired);
                }
                let ghost kept = approvals@;
                let approval = Approval { spender: spender.clone(), expires };
                approvals.push(approval);
                proof {
                    assert(approvals_view(approvals@) =~= approvals_view(kept).push(
                        ApprovalView { spender: spender@, expires },
                    ));
                }
            },
            None => {},
        }
        self.set_approvals(i, approvals);
        Ok(())
    }

    /// Approves `spender` to move the token `token_id` until `expires`, or
    /// without end where no end is named. The caller must be the token's
    /// owner or hold a grant of the owner that has not ended. An approval
    /// that `spender` had on the token is replaced.
    pub fn approve(
        &mut self,
        env: &Env,
        info: &MessageInfo,
        spender: String,
        token_id: String,
        expires: Option<Expiration>,
    ) -> (r: Result<Response, ContractError>)
        requires
            old(self).wf(),
        ensures
            final(self).wf(),
            match r {
                Ok(response) => {
                    &&& old(self)@.approval_error(
                        env.block,
                        info.sender@,
                        token_id@,
                        spender@,
                        Some(or_never(expires)),
                    ) is None
                    &&& final(self)@ == old(self)@.approved(token_id@, spender@, or_never(expires))
                    &&& response@ == token_response(
                        "approve"@,
                        info.sender@,
                        "spender"@,
                        spender@,
                        token_id@,
                    )
                },
                Err(e) => {
                    &&& old(self)@.approval_error(
                        env.block,
                        info.sender@,
                        token_id@,
                        spender@,
                        Some(or_never(expires)),
                    ) == Some(e)
                    &&& final(self)@ == old(self)@
                },
            },
    {
        match self.update_approvals(env, info, &spender, &token_id, Some(unwrap_or_never(expires))) {
            Ok(_) => Ok(token_attributes("approve", &info.sender, "spender", &spender, &token_id)),
            Err(e) => Err(e),
        }
    }

    /// Lifts the approval of `spender` on the token `token_id`, if there is
    /// one. The caller must be the token's owner or hold a grant of the owner
    /// that has not ended.
    pub fn revoke(&mut self, env: &Env, info: &MessageInfo, spender: String, token_id: String) -> (r:
        Result<Response, ContractError>)
        requires
            old(self).wf(),
        ensures
            final(self).wf(),
            match r {
                Ok(response) => {
                    &&& old(self)@.approval_error(env.block, info.sender@, token_id@, spender@, None) is None
                    &&& final(self)@ == old(self)@.revoked(token_id@, spender@)
                    &&& response@ == token_response(
                        "revoke"@,
                        info.sender@,
                        "spender"@,
                        spender@,
                        token_id@,
                    )
                },
                Err(e) => {
                    &&& old(self)@.approval_error(env.block, info.sender@, token_id@, spender@, None)
                        == Some(e)
                    &&& final(self)@ == old(self)@
                },
            },
    {
        match self.update_approvals(env, info, &spender, &token_id, None) {
            Ok(_) => Ok(token_attributes("revoke", &info.sender, "spender", &spender, &token_id)),
            Err(e) => Err(e),
        }
    }

    /// Gives `operator` leave to act on all tokens of the caller until
    /// `expires`, or without end where no end is named. A grant that
    /// `operator` had from the caller is replaced.
    pub fn approve_all(
        &mut self,
        env: &Env,
        info: &MessageInfo,
        operator: String,
        expires: Option<Expiration>,
    ) -> (r: Result<Response, ContractError>)
        requires
            old(self).wf(),
        ensures
            final(self).wf(),
            match r {
                Ok(response) => {
                    &&& ContractView::approve_all_error(env.block, operator@, or_never(expires)) is None
                    &&& final(self)@ == old(self)@.approved_all(
                        info.sender@,
                        operator@,
                        or_never(expires),
                    )
                    &&& response@ == operator_response("approve_all"@, info.sender@, operator@)
                },
                Err(e) => {
                    &&& ContractView::approve_all_error(env.block, operator@, or_never(expires))
                        == Some(e)
                    &&& final(self)@ == old(self)@
                },
            },
    {
        let expires = unwrap_or_never(expires);
        if expires.is_expired(&env.block) {
            return Err(ContractError::Expired);
        }
        if !is_valid_address(&operator) {
            return Err(ContractError::InvalidInput);
        }
        let response = operator_attributes("approve_all", &info.sender, &operator);
        let ghost before = self.operators@;
        let ghost pairs = grant_pairs(before);
        let ghost key = (info.sender@, operator@);
        let found = find_grant(&self.operators, &info.sender, &operator);
        let grant = OperatorGrant { owner: info.sender.clone(), operator, expires };
        match found {
            Some(i) => {
                self.operators.set(i, grant);
                proof {
                    lemma_update(pairs, i as int, expires);
                    assert(grant_pairs(self.operators@) =~= pairs.update(i as int, (key, expires)));
                }
            },
            None => {
                self.operators.push(grant);
                proof {
                    lemma_insert(pairs, pairs.len() as int, key, expires);
                    assert(grant_pairs(self.operators@) =~= pairs.insert(
                        pairs.len() as int,
                        (key, expires),
                    ));
                }
            },
        }
        Ok(response)
    }

    /// Takes back the leave that the caller gave `operator` over all their
    /// tokens, if there is one.
    pub fn revoke_all(&mut self, env: &Env, info: &MessageInfo, operator: String) -> (r: Result<
        Response,
        ContractError,
    >)
        requires
            old(self).wf(),
        ensures
            final(self).wf(),
            match r {
                Ok(response) => {
                    &&& ContractView::revoke_all_error(operator@) is None
                    &&& final(self)@ == old(self)@.revoked_all(info.sender@, operator@)
                    &&& response@ == operator_response("revoke_all"@, info.sender@, operator@)
                },
                Err(e) => {
                    &&& ContractView::revoke_all_error(operator@) == Some(e)
                    &&& final(self)@ == old(self)@
                },
            },
    {
        if !is_valid_address(&operator) {
            return Err(ContractError::InvalidInput);
        }
        let response = operator_attributes("revoke_all", &info.sender, &operator);
        let ghost pairs = grant_pairs(self.operators@);
        match find_grant(&self.operators, &info.sender, &operator) {
            Some(i) => {
                self.operators.remove(i);
                proof {
                    lemma_remove(pairs, i as int);
                    assert(grant_pairs(self.operators@) =~= pairs.remove(i as int));
                }
            },
            None => {
                proof {
                    assert(as_map(pairs).remove((info.sender@, operator@)) =~= as_map(pairs));
                }
            },
        }
        Ok(response)
    }

    /// Takes a step in passing the minter role. The contract's owner
    /// proposes a new minter and renounces the role; the proposed account
    /// accepts it.
    pub fn update_minter_ownership(&mut self, env: &Env, info: &MessageInfo, action: Action) -> (r:
        Result<Response, ContractError>)
        requires
            old(self).wf(),
        ensures
            final(self).wf(),
            match r {
                Ok(response) => {
                    &&& old(self)@.minter_step(env.block, info.sender@, action@) == Ok::<
                        OwnershipView,
                        ContractError,
                    >(final(self)@.minter)
                    &&& final(self)@ == old(self)@.with_minter(final(self)@.minter)
                    &&& response@ == ownership_response(
                        final(self)@.minter,
                        expiry_text(final(self)@.minter),
                    )
                },
                Err(e) => {
                    &&& old(self)@.minter_step(env.block, info.sender@, action@) == Err::<
                        OwnershipView,
                        ContractError,
                    >(e)
                    &&& final(self)@ == old(self)@
                },
            },
    {
        match self.minter.update(&self.creator.owner, &env.block, &info.sender, action) {
            Ok(_) => Ok(self.minter.into_attributes()),
            Err(e) => Err(e),
        }
    }

    /// Takes a step in passing the contract's ownership. The owner proposes
    /// a new owner and renounces; the proposed account accepts.
    pub fn update_creator_ownership(&mut self, env: &Env, info: &MessageInfo, action: Action) -> (r:
        Result<Response, ContractError>)
        requires
            old(self).wf(),
        ensures
            final(self).wf(),
            match r {
                Ok(response) => {
                    &&& old(self)@.creator_step(env.block, info.sender@, action@) == Ok::<
                        OwnershipView,
                        ContractError,
                    >(final(self)@.creator)
                    &&& final(self)@ == old(self)@.with_creator(final(self)@.creator)
                    &&& response@ == ownership_response(
                        final(self)@.creator,
                        expiry_text(final(self)@.creator),
                    )
                },
                Err(e) => {
                    &&& old(self)@.creator_step(env.block, info.sender@, action@) == Err::<
                        OwnershipView,
                        ContractError,
                    >(e)
                    &&& final(self)@ == old(self)@
                },
            },
    {
        let authority = clone_opt_string(&self.creator.owner);
        match self.creator.update(&authority, &env.block, &info.sender, action) {
            Ok(_) => Ok(self.creator.into_attributes()),
            Err(e) => Err(e),
        }
    }
}

} // verus!
