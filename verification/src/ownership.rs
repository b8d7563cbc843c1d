//! Roles that pass from one account to another in two steps: the holder of
//! the authority proposes, the proposed account accepts.
use crate::error::ContractError;
use crate::expiration::{BlockInfo, Expiration};
use crate::response::{attr, Response, ResponseView};
use crate::text::{clone_opt_string, is_valid_address, opt_text, valid_address};
use crate::wire::{expiration_text, expiration_to_string};
use vstd::prelude::*;

verus! {

/// Who holds a role, and to whom it is on its way.
#[derive(Debug, PartialEq, Eq)]
pub struct Ownership {
    /// The holder of the role. `None` once the role has been renounced.
    pub owner: Option<String>,
    /// The account that has been proposed to take the role over.
    pub pending_owner: Option<String>,
    /// Until when the proposed account may accept. `None` where nothing is
    /// pending, or where the proposal has no deadline.
    pub pending_expiry: Option<Expiration>,
}

/// An [`Ownership`] as a mathematical value.
pub struct OwnershipView {
    pub owner: Option<Seq<char>>,
    pub pending_owner: Option<Seq<char>>,
    pub pending_expiry: Option<Expiration>,
}

impl View for Ownership {
    type V = OwnershipView;

    open spec fn view(&self) -> OwnershipView {
        OwnershipView {
            owner: opt_text(self.owner),
            pending_owner: opt_text(self.pending_owner),
            pending_expiry: self.pending_expiry,
        }
    }
}

impl Clone for Ownership {
    fn clone(&self) -> (r: Self)
        ensures
            r@ == self@,
    {
        Ownership {
            owner: clone_opt_string(&self.owner),
            pending_owner: clone_opt_string(&self.pending_owner),
            pending_expiry: self.pending_expiry,
        }
    }
}

/// A step in the passing of a role.
#[derive(Debug, PartialEq, Eq)]
pub enum Action {
    /// Propose to pass the role to another account, optionally with a
    /// deadline. A proposal that is pending is overwritten.
    TransferOwnership { new_owner: String, expiry: Option<Expiration> },
    /// Accept the role. Only the proposed account can.
    AcceptOwnership,
    /// Give the role up for good. A pending proposal is dropped.
    RenounceOwnership,
}

/// An [`Action`] as a mathematical value.
pub enum ActionView {
    TransferOwnership { new_owner: Seq<char>, expiry: Option<Expiration> },
    AcceptOwnership,
    RenounceOwnership,
}

impl View for Action {
    type V = ActionView;

    open spec fn view(&self) -> ActionView {
        match self {
            Action::TransferOwnership { new_owner, expiry } => ActionView::TransferOwnership {
                new_owner: new_owner@,
                expiry: *expiry,
            },
            Action::AcceptOwnership => ActionView::AcceptOwnership,
            Action::RenounceOwnership => ActionView::RenounceOwnership,
        }
    }
}

impl OwnershipView {
    /// The role held by `owner`, with nothing pending.
    pub open spec fn held_by(owner: Option<Seq<char>>) -> OwnershipView {
        OwnershipView { owner, pending_owner: None, pending_expiry: None }
    }

    /// The holder and the proposed account, where there are any, can name
    /// accounts; a deadline stands only beside a proposal.
    pub open spec fn wf(self) -> bool {
        &&& self.owner is Some ==> valid_address(self.owner->0)
        &&& self.pending_owner is Some ==> valid_address(self.pending_owner->0)
        &&& self.pending_owner is None ==> self.pending_expiry is None
    }

    /// `who` may propose a new holder or renounce the role: the role is
    /// held, and `who` is the account with authority over it.
    pub open spec fn may_direct(self, authority: Option<Seq<char>>, who: Seq<char>) -> bool {
        self.owner is Some && authority == Some(who)
    }

    /// What `action` by `sender` in `block` makes of the role, where
    /// `authority` is the account that may propose and renounce.
    pub open spec fn step(
        self,
        authority: Option<Seq<char>>,
        block: BlockInfo,
        sender: Seq<char>,
        action: ActionView,
    ) -> Result<OwnershipView, ContractError> {
        match action {
            ActionView::TransferOwnership { new_owner, expiry } => {
                if !self.may_direct(authority, sender) {
                    Err(ContractError::Unauthorized)
                } else if !valid_address(new_owner) {
                    Err(ContractError::InvalidInput)
                } else {
                    Ok(
                        OwnershipView {
                            owner: self.owner,
                            pending_owner: Some(new_owner),
                            pending_expiry: expiry,
                        },
                    )
                }
            },
            ActionView::AcceptOwnership => {
                if self.pending_owner is None {
                    Err(ContractError::NotFound)
                } else if self.pending_owner != Some(sender) {
                    Err(ContractError::Unauthorized)
                } else if self.pending_expiry is Some && self.pending_expiry->0.expired_at(block) {
                    Err(ContractError::Expired)
                } else {
                    Ok(OwnershipView::held_by(self.pending_owner))
                }
            },
            ActionView::RenounceOwnership => {
                if !self.may_direct(authority, sender) {
                    Err(ContractError::Unauthorized)
                } else {
                    Ok(OwnershipView::held_by(None))
                }
            },
        }
    }
}

/// The text of an optional value for the log: `none` where there is none.
pub open spec fn none_or(text: Option<Seq<char>>) -> Seq<char> {
    match text {
        Some(t) => t,
        None => "none"@,
    }
}

/// What a change of a role hands back: the holder, the proposed account
/// and the deadline, given the text of the deadline where there is one.
pub open spec fn ownership_response(
    role: OwnershipView,
    expiry_text: Option<Seq<char>>,
) -> ResponseView {
    ResponseView::of(
        Seq::empty().push(attr("owner"@, none_or(role.owner))).push(
            attr("pending_owner"@, none_or(role.pending_owner)),
        ).push(attr("pending_expiry"@, none_or(expiry_text))),
    )
}

/// The text of a role's deadline, where it has one.
pub open spec fn expiry_text(role: OwnershipView) -> Option<Seq<char>> {
    match role.pending_expiry {
        Some(e) => Some(expiration_text(e)),
        None => None,
    }
}

fn text_or_none(text: &Option<String>) -> (r: String)
    ensures
        r@ == none_or(opt_text(*text)),
{
    match text {
        Some(t) => t.clone(),
        None => "none".to_owned(),
    }
}

/// Tells whether an optional account is `who`.
pub fn is_account(account: &Option<String>, who: &String) -> (r: bool)
    ensures
        r == (opt_text(*account) == Some(who@)),
{
    match account {
        Some(a) => *a == *who,
        None => false,
    }
}

impl Ownership {
    /// The role held by `owner`, with nothing pending.
    pub fn new(owner: Option<String>) -> (r: Self)
        ensures
            r@ == OwnershipView::held_by(opt_text(owner)),
    {
        Ownership { owner, pending_owner: None, pending_expiry: None }
    }

    /// The attributes that describe the role, given the text of its
    /// deadline where it has one.
    pub fn attributes_with(&self, deadline: Option<String>) -> (r: Response)
        ensures
            r@ == ownership_response(self@, opt_text(deadline)),
    {
        Response::new().add_attribute("owner", text_or_none(&self.owner)).add_attribute(
            "pending_owner",
            text_or_none(&self.pending_owner),
        ).add_attribute("pending_expiry", text_or_none(&deadline))
    }

    /// The attributes that describe the role.
    pub fn into_attributes(&self) -> (r: Response)
        ensures
            r@ == ownership_response(self@, expiry_text(self@)),
    {
        let deadline = match self.pending_expiry {
            Some(e) => Some(expiration_to_string(e)),
            None => None,
        };
        self.attributes_with(deadline)
    }

    /// Applies `action` by `sender` in `block`, where `authority` is the
    /// account that may propose and renounce. On an error the role stays as
    /// it is.
    pub fn update(
        &mut self,
        authority: &Option<String>,
        block: &BlockInfo,
        sender: &String,
        action: Action,
    ) -> (r: Result<(), ContractError>)
        requires
            old(self)@.wf(),
        ensures
            final(self)@.wf(),
            match r {
                Ok(_) => old(self)@.step(opt_text(*authority), *block, sender@, action@) == Ok::<
                    OwnershipView,
                    ContractError,
                >(final(self)@),
                Err(e) => old(self)@.step(opt_text(*authority), *block, sender@, action@) == Err::<
                    OwnershipView,
                    ContractError,
                >(e) && final(self)@ == old(self)@,
            },
    {
        match action {
            Action::TransferOwnership { new_owner, expiry } => {
                if self.owner.is_none() || !is_account(authority, sender) {
                    return Err(ContractError::Unauthorized);
                }
                if !is_valid_address(&new_owner) {
                    return Err(ContractError::InvalidInput);
                }
                self.pending_owner = Some(new_owner);
                self.pending_expiry = expiry;
                Ok(())
            },
            Action::AcceptOwnership => {
                if self.pending_owner.is_none() {
                    return Err(ContractError::NotFound);
                }
                if !is_account(&self.pending_owner, sender) {
                    return Err(ContractError::Unauthorized);
                }
                match self.pending_expiry {
                    Some(expiry) => {
                        if expiry.is_expired(block) {
                            return Err(ContractError::Expired);
                        }
                    },
                    None => {},
                }
                self.owner = self.pending_owner.take();
                self.pending_expiry = None;
                Ok(())
            },
            Action::RenounceOwnership => {
                if self.owner.is_none() || !is_account(authority, sender) {
                    return Err(ContractError::Unauthorized);
                }
                self.owner = None;
                self.pending_owner = None;
                self.pending_expiry = None;
                Ok(())
            },
        }
    }
}

} // verus!
