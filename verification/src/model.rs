//! The registry as a mathematical value, and what each operation makes of it.
//!
//! Every operation has two functions here: one that says on which inputs it
//! is rejected and with which error, and one that gives the state after it
//! where it is not. The executable operations are proved against these.
use crate::error::ContractError;
use crate::expiration::{BlockInfo, Expiration};
use crate::metadata::MetadataView;
use crate::ownership::{ActionView, OwnershipView};
use crate::text::valid_address;
use crate::token::{approval_active, without_spender, ApprovalView, TokenView};
use vstd::prelude::*;

verus! {

/// The registry as a mathematical value.
pub struct ContractView {
    /// The name of the collection.
    pub name: Seq<char>,
    /// The symbol of the collection.
    pub symbol: Seq<char>,
    /// The role that may mint.
    pub minter: OwnershipView,
    /// The role that owns the contract: it directs the minter role.
    pub creator: OwnershipView,
    /// The tokens, by their IDs.
    pub tokens: Map<Seq<char>, TokenView>,
    /// The IDs of the tokens that were burnt.
    pub retired: Set<Seq<char>>,
    /// The grants over all tokens of an owner: from the owner and the
    /// operator to the end of the grant.
    pub operators: Map<(Seq<char>, Seq<char>), Expiration>,
}

impl ContractView {
    /// What holds of the registry in every state: there are finitely many
    /// tokens, each has an owner that can name an account and at most one
    /// approval for any account, no ID of a burnt token is in use, and the
    /// two roles are well formed.
    pub open spec fn wf(self) -> bool {
        &&& self.tokens.dom().finite()
        &&& forall|id: Seq<char>| #[trigger]
            self.tokens.dom().contains(id) ==> self.tokens[id].wf() && !self.retired.contains(id)
        &&& self.minter.wf()
        &&& self.creator.wf()
    }

    /// The registry before anything was set up: no token, no grant, and no
    /// one in either role.
    pub open spec fn blank() -> ContractView {
        ContractView {
            name: Seq::empty(),
            symbol: Seq::empty(),
            minter: OwnershipView::held_by(None),
            creator: OwnershipView::held_by(None),
            tokens: Map::empty(),
            retired: Set::empty(),
            operators: Map::empty(),
        }
    }

    /// A token with this ID exists.
    pub open spec fn has_token(self, id: Seq<char>) -> bool {
        self.tokens.dom().contains(id)
    }

    /// This ID cannot be given to a new token: a token has it, or a burnt
    /// one had it.
    pub open spec fn id_taken(self, id: Seq<char>) -> bool {
        self.has_token(id) || self.retired.contains(id)
    }

    /// `who` holds a grant over all tokens of `owner` that has not ended in
    /// `block`.
    pub open spec fn operator_active(
        self,
        owner: Seq<char>,
        who: Seq<char>,
        block: BlockInfo,
    ) -> bool {
        self.operators.dom().contains((owner, who)) && !self.operators[(owner, who)].expired_at(
            block,
        )
    }

    /// `who` may move or burn the token `id` in `block`: as its owner, by an
    /// approval on it that has not ended, or by a grant of its owner that has
    /// not ended.
    pub open spec fn can_send(self, block: BlockInfo, who: Seq<char>, id: Seq<char>) -> bool {
        let token = self.tokens[id];
        ||| token.owner == who
        ||| approval_active(token.approvals, who, block)
        ||| self.operator_active(token.owner, who, block)
    }

    /// `who` may set and lift approvals on the token `id` in `block`: as its
    /// owner, or by a grant of its owner that has not ended.
    pub open spec fn can_approve(self, block: BlockInfo, who: Seq<char>, id: Seq<char>) -> bool {
        let token = self.tokens[id];
        token.owner == who || self.operator_active(token.owner, who, block)
    }

    /// The state after the contract was set up with this name, symbol and
    /// minter: the minter holds both roles; tokens and grants stay.
    pub open spec fn instantiated(
        self,
        name: Seq<char>,
        symbol: Seq<char>,
        minter: Seq<char>,
    ) -> ContractView {
        ContractView {
            name,
            symbol,
            minter: OwnershipView::held_by(Some(minter)),
            creator: OwnershipView::held_by(Some(minter)),
            ..self
        }
    }

    /// Why `sender` cannot mint the token `id` for `owner`, if so.
    pub open spec fn mint_error(self, sender: Seq<char>, id: Seq<char>, owner: Seq<char>) -> Option<
        ContractError,
    > {
        if self.minter.owner != Some(sender) {
            Some(ContractError::Unauthorized)
        } else if !valid_address(owner) {
            Some(ContractError::InvalidInput)
        } else if self.id_taken(id) {
            Some(ContractError::AlreadyExists)
        } else {
            None
        }
    }

    /// The state after the token `id` was minted.
    pub open spec fn minted(
        self,
        id: Seq<char>,
        owner: Seq<char>,
        token_uri: Option<Seq<char>>,
        extension: Option<MetadataView>,
    ) -> ContractView {
        ContractView {
            tokens: self.tokens.insert(
                id,
                TokenView { owner, approvals: Seq::empty(), token_uri, extension },
            ),
            ..self
        }
    }

    /// Why `sender` cannot move the token `id` to `recipient` in `block`, if
    /// so.
    pub open spec fn transfer_error(
        self,
        block: BlockInfo,
        sender: Seq<char>,
        id: Seq<char>,
        recipient: Seq<char>,
    ) -> Option<ContractError> {
        if !self.has_token(id) {
            Some(ContractError::NotFound)
        } else if !self.can_send(block, sender, id) {
            Some(ContractError::Unauthorized)
        } else if !valid_address(recipient) {
            Some(ContractError::InvalidInput)
        } else {
            None
        }
    }

    /// The state after the token `id` was moved to `recipient`: it has the
    /// new owner and no approvals.
    pub open spec fn transferred(self, id: Seq<char>, recipient: Seq<char>) -> ContractView {
        ContractView { tokens: self.tokens.insert(id, self.tokens[id].moved_to(recipient)), ..self }
    }

    /// Why `sender` cannot burn the token `id` in `block`, if so.
    pub open spec fn burn_error(self, block: BlockInfo, sender: Seq<char>, id: Seq<char>) -> Option<
        ContractError,
    > {
        if !self.has_token(id) {
            Some(ContractError::NotFound)
        } else if !self.can_send(block, sender, id) {
            Some(ContractError::Unauthorized)
        } else {
            None
        }
    }

    /// The state after the token `id` was burnt: the token is gone, with its
    /// approvals, and its ID is kept from being used again.
    pub open spec fn burnt(self, id: Seq<char>) -> ContractView {
        ContractView { tokens: self.tokens.remove(id), retired: self.retired.insert(id), ..self }
    }

    /// Why `sender` cannot set or lift an approval for `spender` on the
    /// token `id` in `block`, if so. `expires` is `None` for lifting one.
    pub open spec fn approval_error(
        self,
        block: BlockInfo,
        sender: Seq<char>,
        id: Seq<char>,
        spender: Seq<char>,
        expires: Option<Expiration>,
    ) -> Option<ContractError> {
        if !self.has_token(id) {
            Some(ContractError::NotFound)
        } else if !self.can_approve(block, sender, id) {
            Some(ContractError::Unauthorized)
        } else if !valid_address(spender) {
            Some(ContractError::InvalidInput)
        } else if expires is Some && expires->0.expired_at(block) {
            Some(ContractError::Expired)
        } else {
            None
        }
    }

    /// The state after `spender` was approved on the token `id` until
    /// `expires`: the approval stands last in the token's list, and an
    /// earlier one for the same account is gone.
    pub open spec fn approved(
        self,
        id: Seq<char>,
        spender: Seq<char>,
        expires: Expiration,
    ) -> ContractView {
        let token = self.tokens[id];
        let approvals = without_spender(token.approvals, spender).push(
            ApprovalView { spender, expires },
        );
        ContractView { tokens: self.tokens.insert(id, token.with_approvals(approvals)), ..self }
    }

    /// The state after the approval for `spender` on the token `id` was
    /// lifted, if there was one.
    pub open spec fn revoked(self, id: Seq<char>, spender: Seq<char>) -> ContractView {
        let token = self.tokens[id];
        let approvals = without_spender(token.approvals, spender);
        ContractView { tokens: self.tokens.insert(id, token.with_approvals(approvals)), ..self }
    }

    /// Why a grant over all tokens that ends at `expires` cannot be given to
    /// `operator` in `block`, if so.
    pub open spec fn approve_all_error(
        block: BlockInfo,
        operator: Seq<char>,
        expires: Expiration,
    ) -> Option<ContractError> {
        if expires.expired_at(block) {
            Some(ContractError::Expired)
        } else if !valid_address(operator) {
            Some(ContractError::InvalidInput)
        } else {
            None
        }
    }

    /// The state after `owner` gave `operator` a grant over all their
    /// tokens until `expires`.
    pub open spec fn approved_all(
        self,
        owner: Seq<char>,
        operator: Seq<char>,
        expires: Expiration,
    ) -> ContractView {
        ContractView { operators: self.operators.insert((owner, operator), expires), ..self }
    }

    /// Why the grant of `operator` cannot be taken back, if so.
    pub open spec fn revoke_all_error(operator: Seq<char>) -> Option<ContractError> {
        if !valid_address(operator) {
            Some(ContractError::InvalidInput)
        } else {
            None
        }
    }

    /// The state after `owner` took the grant of `operator` back, if there
    /// was one.
    pub open spec fn revoked_all(self, owner: Seq<char>, operator: Seq<char>) -> ContractView {
        ContractView { operators: self.operators.remove((owner, operator)), ..self }
    }

    /// What a step in passing the minter role makes of it. The contract's
    /// owner proposes and renounces; the proposed account accepts.
    pub open spec fn minter_step(
        self,
        block: BlockInfo,
        sender: Seq<char>,
        action: ActionView,
    ) -> Result<OwnershipView, ContractError> {
        self.minter.step(self.creator.owner, block, sender, action)
    }

    /// What a step in passing the contract's ownership makes of it. The
    /// owner proposes and renounces; the proposed account accepts.
    pub open spec fn creator_step(
        self,
        block: BlockInfo,
        sender: Seq<char>,
        action: ActionView,
    ) -> Result<OwnershipView, ContractError> {
        self.creator.step(self.creator.owner, block, sender, action)
    }

    /// The state with `minter` as the minter role.
    pub open spec fn with_minter(self, minter: OwnershipView) -> ContractView {
        ContractView { minter, ..self }
    }

    /// The state with `creator` as the role of the contract's owner.
    pub open spec fn with_creator(self, creator: OwnershipView) -> ContractView {
        ContractView { creator, ..self }
    }
}

} // verus!
