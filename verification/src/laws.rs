//! What holds of the registry whatever its state: the laws that relate one
//! operation to another, stated over the mathematical model that the
//! operations are proved against.
use crate::entry::execute_outcome;
use crate::error::ContractError;
use crate::execute::send_outcome;
use crate::expiration::{BlockInfo, Expiration};
use crate::metadata::MetadataView;
use crate::model::ContractView;
use crate::msg::ExecuteMsg;
use crate::ownership::{ActionView, OwnershipView};
use crate::query::{after, is_page, NftInfoView, OwnerOfView};
use crate::response::ResponseView;
use crate::text::{
    lemma_precedes_asymmetric, lemma_precedes_irreflexive, lemma_precedes_total,
    lemma_precedes_transitive, precedes, valid_address,
};
use crate::token::{
    approval_active, for_another, lemma_filter_distinct, shown, spender_at, visible,
    without_spender, ApprovalView,
};
use vstd::prelude::*;

verus! {

/// A token ID can be minted once: after a mint, another mint of the same
/// ID by the minter is rejected with `AlreadyExists`, whatever it names as
/// owner, URI and record.
pub proof fn law_mint_twice(
    state: ContractView,
    sender: Seq<char>,
    id: Seq<char>,
    owner: Seq<char>,
    token_uri: Option<Seq<char>>,
    extension: Option<MetadataView>,
    second_owner: Seq<char>,
)
    requires
        state.mint_error(sender, id, owner) is None,
        valid_address(second_owner),
    ensures
        state.minted(id, owner, token_uri, extension).mint_error(sender, id, second_owner) == Some(
            ContractError::AlreadyExists,
        ),
{
}

/// The ID of a burnt token is never given out again: after a burn, a mint
/// of that ID by the minter is rejected with `AlreadyExists`.
pub proof fn law_burnt_id_stays_taken(
    state: ContractView,
    block: BlockInfo,
    sender: Seq<char>,
    id: Seq<char>,
    minter: Seq<char>,
    owner: Seq<char>,
)
    requires
        state.burn_error(block, sender, id) is None,
        state.minter.owner == Some(minter),
        valid_address(owner),
    ensures
        state.burnt(id).mint_error(minter, id, owner) == Some(ContractError::AlreadyExists),
{
}

/// Right after a mint the token has the owner, the URI and the record that
/// it was minted with, and no approvals. A record that is given is told
/// apart from no record, also where all its fields are blank.
pub proof fn law_minted_token_reads_back(
    state: ContractView,
    block: BlockInfo,
    id: Seq<char>,
    owner: Seq<char>,
    token_uri: Option<Seq<char>>,
    extension: Option<MetadataView>,
    include_expired: bool,
)
    ensures
        state.minted(id, owner, token_uri, extension).owner_of(block, id, include_expired) == Ok::<
            OwnerOfView,
            ContractError,
        >(OwnerOfView { owner, approvals: Seq::empty() }),
        state.minted(id, owner, token_uri, extension).nft_info(id) == Ok::<
            NftInfoView,
            ContractError,
        >(NftInfoView { token_uri, extension }),
        Some(MetadataView::blank()) != None::<MetadataView>,
{
    let none = Seq::<ApprovalView>::empty();
    none.lemma_filter_len(shown(block, include_expired));
    assert(visible(none, block, include_expired) =~= none);
}

/// A caller who is not the owner of a token, holds no approval on it that
/// is in force and no grant of its owner that is in force cannot move it:
/// the transfer is rejected with `Unauthorized`.
pub proof fn law_stranger_cannot_transfer(
    state: ContractView,
    block: BlockInfo,
    caller: Seq<char>,
    id: Seq<char>,
    recipient: Seq<char>,
)
    requires
        state.has_token(id),
        state.tokens[id].owner != caller,
        !approval_active(state.tokens[id].approvals, caller, block),
        !state.operator_active(state.tokens[id].owner, caller, block),
    ensures
        state.transfer_error(block, caller, id, recipient) == Some(ContractError::Unauthorized),
        state.burn_error(block, caller, id) == Some(ContractError::Unauthorized),
{
}

/// A move wipes the approvals of the token: behind a transfer, or a send,
/// of a token only its new owner and those who hold a grant of the new owner
/// can move it, whatever approvals stood on it before.
pub proof fn law_transfer_clears_approvals(
    state: ContractView,
    id: Seq<char>,
    recipient: Seq<char>,
    later: BlockInfo,
    grantee: Seq<char>,
    next: Seq<char>,
)
    requires
        state.has_token(id),
        grantee != recipient,
        !state.operator_active(recipient, grantee, later),
    ensures
        state.transferred(id, recipient).tokens[id].approvals == Seq::<ApprovalView>::empty(),
        state.transferred(id, recipient).transfer_error(later, grantee, id, next) == Some(
            ContractError::Unauthorized,
        ),
{
    let moved = state.transferred(id, recipient);
    assert forall|i: int| !(#[trigger] spender_at(moved.tokens[id].approvals, i, grantee)) by {}
}

/// A burn takes the token away with its approvals: behind it no one can
/// move the token, its owner and record are not found, and there is one
/// token less.
pub proof fn law_burn_removes_token(
    state: ContractView,
    id: Seq<char>,
    later: BlockInfo,
    caller: Seq<char>,
    next: Seq<char>,
    include_expired: bool,
)
    requires
        state.wf(),
        state.has_token(id),
    ensures
        state.burnt(id).transfer_error(later, caller, id, next) == Some(ContractError::NotFound),
        state.burnt(id).owner_of(later, id, include_expired) == Err::<OwnerOfView, ContractError>(
            ContractError::NotFound,
        ),
        state.burnt(id).nft_info(id) == Err::<NftInfoView, ContractError>(ContractError::NotFound),
        state.burnt(id).tokens.dom().len() == state.tokens.dom().len() - 1,
{
}

/// Lifting an approval leaves none for that account on the token.
pub proof fn law_revoke_leaves_none(
    approvals: Seq<ApprovalView>,
    spender: Seq<char>,
    block: BlockInfo,
)
    ensures
        !approval_active(without_spender(approvals, spender), spender, block),
{
    let rest = without_spender(approvals, spender);
    assert forall|i: int| !(#[trigger] spender_at(rest, i, spender)) by {
        if 0 <= i < rest.len() {
            approvals.lemma_filter_pred(for_another(spender), i);
        }
    }
}

/// An approval that was set and then lifted gives no leave: the former
/// grantee, unless it is the owner or holds a grant of the owner, cannot move
/// the token.
pub proof fn law_approve_then_revoke(
    state: ContractView,
    id: Seq<char>,
    grantee: Seq<char>,
    expires: Expiration,
    later: BlockInfo,
    recipient: Seq<char>,
)
    requires
        state.has_token(id),
        state.tokens[id].owner != grantee,
        !state.operator_active(state.tokens[id].owner, grantee, later),
    ensures
        state.approved(id, grantee, expires).revoked(id, grantee).transfer_error(
            later,
            grantee,
            id,
            recipient,
        ) == Some(ContractError::Unauthorized),
{
    let approved = state.approved(id, grantee, expires);
    law_revoke_leaves_none(approved.tokens[id].approvals, grantee, later);
}

/// An approval that has ended counts as none: taking it off the list
/// changes no one's leave to move the token.
pub proof fn law_expired_approval_is_none(
    approvals: Seq<ApprovalView>,
    i: int,
    who: Seq<char>,
    block: BlockInfo,
)
    requires
        0 <= i < approvals.len(),
        approvals[i].expires.expired_at(block),
    ensures
        approval_active(approvals, who, block) == approval_active(approvals.remove(i), who, block),
{
    let rest = approvals.remove(i);
    if approval_active(approvals, who, block) {
        let j = choose|j: int| #[trigger]
            spender_at(approvals, j, who) && !approvals[j].expires.expired_at(block);
        if j < i {
            assert(spender_at(rest, j, who));
        } else {
            assert(spender_at(rest, j - 1, who));
        }
    }
    if approval_active(rest, who, block) {
        let j = choose|j: int| #[trigger]
            spender_at(rest, j, who) && !rest[j].expires.expired_at(block);
        if j < i {
            assert(spender_at(approvals, j, who));
        } else {
            assert(spender_at(approvals, j + 1, who));
        }
    }
}

/// A token whose approval has ended can be moved by exactly those who
/// could move it if that approval had never been set; the same holds of a
/// grant over all tokens that has ended.
pub proof fn law_expired_leave_is_none(
    state: ContractView,
    block: BlockInfo,
    id: Seq<char>,
    i: int,
    owner: Seq<char>,
    operator: Seq<char>,
    who: Seq<char>,
)
    requires
        state.has_token(id),
    ensures
        0 <= i < state.tokens[id].approvals.len() && state.tokens[id].approvals[i].expires.expired_at(
            block,
        ) ==> state.can_send(block, who, id) == (ContractView {
            tokens: state.tokens.insert(
                id,
                state.tokens[id].with_approvals(state.tokens[id].approvals.remove(i)),
            ),
            ..state
        }).can_send(block, who, id),
        state.operators.dom().contains((owner, operator)) && state.operators[(
            owner,
            operator,
        )].expired_at(block) ==> state.can_send(block, who, id) == state.revoked_all(
            owner,
            operator,
        ).can_send(block, who, id),
{
    if 0 <= i < state.tokens[id].approvals.len() && state.tokens[id].approvals[i].expires.expired_at(
        block,
    ) {
        law_expired_approval_is_none(state.tokens[id].approvals, i, who, block);
    }
}

/// Two pages that answer the same question agree on every place that both
/// have.
proof fn lemma_pages_agree(
    a: Seq<Seq<char>>,
    b: Seq<Seq<char>>,
    keys: Set<Seq<char>>,
    start_after: Option<Seq<char>>,
    limit: nat,
    i: int,
)
    requires
        is_page(a, keys, start_after, limit),
        is_page(b, keys, start_after, limit),
        0 <= i <= a.len(),
        i <= b.len(),
    ensures
        forall|j: int| 0 <= j < i ==> a[j] == b[j],
    decreases i,
{
    if i > 0 {
        lemma_pages_agree(a, b, keys, start_after, limit, i - 1);
        let x = a[i - 1];
        let y = b[i - 1];
        if x != y {
            lemma_precedes_total(x, y);
            if precedes(x, y) {
                lemma_skipped(a, b, keys, start_after, limit, i - 1);
            } else {
                lemma_skipped(b, a, keys, start_after, limit, i - 1);
            }
        }
    }
}

/// A page cannot pass over a key that another page for the same question
/// holds at the same place.
proof fn lemma_skipped(
    a: Seq<Seq<char>>,
    b: Seq<Seq<char>>,
    keys: Set<Seq<char>>,
    start_after: Option<Seq<char>>,
    limit: nat,
    i: int,
)
    requires
        is_page(a, keys, start_after, limit),
        is_page(b, keys, start_after, limit),
        0 <= i < a.len(),
        i < b.len(),
        forall|j: int| 0 <= j < i ==> a[j] == b[j],
    ensures
        !precedes(a[i], b[i]),
{
    let x = a[i];
    if precedes(x, b[i]) {
        assert(keys.contains(x) && after(start_after, x));
        lemma_precedes_irreflexive(x);
        lemma_precedes_asymmetric(x, b[i]);
        if b.contains(x) {
            let j = choose|j: int| 0 <= j < b.len() && b[j] == x;
            if j < i {
                assert(precedes(a[j], a[i]));
            } else if j > i {
                assert(precedes(b[i], b[j]));
            }
        } else {
            if i < limit - 1 {
                assert(precedes(b[i], b[limit - 1]));
                lemma_precedes_transitive(b[i], b[limit - 1], x);
            }
        }
    }
}

/// A page for a question is no longer than another page for it.
proof fn lemma_page_no_longer(
    a: Seq<Seq<char>>,
    b: Seq<Seq<char>>,
    keys: Set<Seq<char>>,
    start_after: Option<Seq<char>>,
    limit: nat,
)
    requires
        is_page(a, keys, start_after, limit),
        is_page(b, keys, start_after, limit),
    ensures
        a.len() <= b.len(),
{
    if a.len() > b.len() {
        let n = b.len() as int;
        lemma_pages_agree(a, b, keys, start_after, limit, n);
        let x = a[n];
        assert(keys.contains(x) && after(start_after, x));
        assert(b.contains(x));
        let j = choose|j: int| 0 <= j < b.len() && b[j] == x;
        assert(precedes(a[j], a[n]));
        lemma_precedes_irreflexive(x);
    }
}

/// A listing is determined by what is asked: the keys, the place to start
/// after and the limit allow one page only.
pub proof fn law_page_unique(
    a: Seq<Seq<char>>,
    b: Seq<Seq<char>>,
    keys: Set<Seq<char>>,
    start_after: Option<Seq<char>>,
    limit: nat,
)
    requires
        is_page(a, keys, start_after, limit),
        is_page(b, keys, start_after, limit),
    ensures
        a == b,
{
    lemma_page_no_longer(a, b, keys, start_after, limit);
    lemma_page_no_longer(b, a, keys, start_after, limit);
    lemma_pages_agree(a, b, keys, start_after, limit, a.len() as int);
    assert(a =~= b);
}

/// A full page and the page that starts after its last ID make up the page
/// of both sizes together: going on from where a page ended repeats nothing
/// and passes over nothing.
pub proof fn law_pages_join(
    first: Seq<Seq<char>>,
    second: Seq<Seq<char>>,
    keys: Set<Seq<char>>,
    start_after: Option<Seq<char>>,
    n: nat,
    m: nat,
)
    requires
        n > 0,
        first.len() == n,
        is_page(first, keys, start_after, n),
        is_page(second, keys, Some(first[n - 1]), m),
    ensures
        is_page(first + second, keys, start_after, n + m),
{
    let last = first[n - 1];
    let all = first + second;
    assert(keys.contains(last) && after(start_after, last));
    assert forall|i: int| 0 <= i < n implies first[i] == last || precedes(first[i], last) by {
        if i < n - 1 {
            assert(precedes(first[i], first[n - 1]));
        }
    }
    assert forall|j: int| 0 <= j < second.len() implies precedes(last, #[trigger] second[j])
        && keys.contains(second[j]) && after(start_after, second[j]) by {
        assert(after(Some(last), second[j]));
        if start_after is Some {
            lemma_precedes_transitive(start_after->0, last, second[j]);
        }
    }
    assert forall|i: int, j: int| 0 <= i < j < all.len() implies precedes(all[i], all[j]) by {
        if j < n {
            assert(precedes(first[i], first[j]));
        } else if i >= n {
            assert(precedes(second[i - n], second[j - n]));
        } else {
            assert(precedes(last, second[j - n]));
            if first[i] != last {
                lemma_precedes_transitive(first[i], last, second[j - n]);
            }
        }
    }
    assert forall|i: int| 0 <= i < all.len() implies keys.contains(#[trigger] all[i]) && after(
        start_after,
        all[i],
    ) by {
        if i >= n {
            assert(all[i] == second[i - n]);
        } else {
            assert(all[i] == first[i]);
        }
    }
    assert forall|k: Seq<char>| #[trigger] keys.contains(k) && after(start_after, k) implies all.contains(
        k,
    ) || (all.len() == n + m && (n + m == 0 || precedes(all[n + m - 1], k))) by {
        if first.contains(k) {
            let i = choose|i: int| 0 <= i < first.len() && first[i] == k;
            assert(all[i] == k);
        } else {
            assert(precedes(last, k));
            assert(after(Some(last), k));
            if second.contains(k) {
                let j = choose|j: int| 0 <= j < second.len() && second[j] == k;
                assert(all[n + j] == k);
            } else {
                if m > 0 {
                    assert(all[n + m - 1] == second[m - 1]);
                } else {
                    assert(all[n + m - 1] == last);
                }
            }
        }
    }
}

/// Walking a listing one ID at a time gives what asking for all of it at
/// once gives. Where `full` is a listing that its limit did not cut short,
/// the page of size one that starts after the ID at place `i - 1` (at the
/// start, for `i` zero) holds the ID at place `i` and nothing else, and the
/// page that starts after the last ID is empty.
pub proof fn law_walk_by_one(
    full: Seq<Seq<char>>,
    keys: Set<Seq<char>>,
    start_after: Option<Seq<char>>,
    limit: nat,
    i: int,
)
    requires
        is_page(full, keys, start_after, limit),
        full.len() < limit,
        0 <= i <= full.len(),
    ensures
        is_page(
            if i < full.len() {
                Seq::empty().push(full[i])
            } else {
                Seq::empty()
            },
            keys,
            if i == 0 {
                start_after
            } else {
                Some(full[i - 1])
            },
            1,
        ),
{
    let page = if i < full.len() {
        Seq::<Seq<char>>::empty().push(full[i])
    } else {
        Seq::empty()
    };
    let from = if i == 0 {
        start_after
    } else {
        Some(full[i - 1])
    };
    if i < full.len() {
        assert(keys.contains(full[i]) && after(start_after, full[i]));
        if i > 0 {
            assert(precedes(full[i - 1], full[i]));
        }
    }
    assert forall|k: Seq<char>| #[trigger] keys.contains(k) && after(from, k) implies page.contains(
        k,
    ) || (page.len() == 1 && precedes(page[0], k)) by {
        if i > 0 {
            let prev = full[i - 1];
            assert(keys.contains(prev) && after(start_after, prev));
            if start_after is Some {
                lemma_precedes_transitive(start_after->0, prev, k);
            }
        }
        assert(after(start_after, k));
        assert(full.contains(k));
        let j = choose|j: int| 0 <= j < full.len() && full[j] == k;
        if j < i {
            lemma_precedes_irreflexive(k);
            if j < i - 1 {
                assert(precedes(full[j], full[i - 1]));
                lemma_precedes_asymmetric(full[j], full[i - 1]);
            }
        } else if j == i {
            assert(page[0] == k);
        } else {
            assert(precedes(full[i], full[j]));
        }
    }
}

/// A send does what a transfer to the contract does and queues exactly one
/// message: it is for the contract and carries the sender, the token and
/// the payload as they were given.
pub proof fn law_send_notifies(
    before: ContractView,
    block: BlockInfo,
    sender: Seq<char>,
    contract: Seq<char>,
    id: Seq<char>,
    payload: Seq<u8>,
    body: Option<Seq<u8>>,
    after: ContractView,
    response: ResponseView,
)
    requires
        send_outcome(
            before,
            block,
            sender,
            contract,
            id,
            payload,
            body,
            after,
            Ok::<ResponseView, ContractError>(response),
        ),
    ensures
        before.transfer_error(block, sender, id, contract) is None,
        after == before.transferred(id, contract),
        after.tokens[id].owner == contract,
        response.messages.len() == 1,
        response.messages[0].contract_addr == contract,
        response.messages[0].sender == sender,
        response.messages[0].token_id == id,
        response.messages[0].payload == payload,
        body == Some(response.messages[0].body),
{
}

/// The minter role passes in two steps. Once the contract's owner has
/// proposed a new minter, an acceptance by any other account is rejected
/// with `Unauthorized`; the proposed account can accept while the proposal
/// has not ended; and from then on the former minter can mint no more.
pub proof fn law_minter_handover(
    state: ContractView,
    block: BlockInfo,
    owner: Seq<char>,
    proposed: Seq<char>,
    expiry: Option<Expiration>,
    other: Seq<char>,
    later: BlockInfo,
    former: Seq<char>,
    id: Seq<char>,
    token_owner: Seq<char>,
)
    requires
        state.creator.owner == Some(owner),
        state.minter.owner == Some(former),
        valid_address(proposed),
        other != proposed,
        former != proposed,
        !(expiry is Some && expiry->0.expired_at(later)),
    ensures
        state.minter_step(
            block,
            owner,
            ActionView::TransferOwnership { new_owner: proposed, expiry },
        ) is Ok,
        ({
            let pending = state.with_minter(
                state.minter_step(
                    block,
                    owner,
                    ActionView::TransferOwnership { new_owner: proposed, expiry },
                )->Ok_0,
            );
            let accepted = pending.with_minter(OwnershipView::held_by(Some(proposed)));
            &&& pending.minter.owner == Some(former)
            &&& pending.minter_step(later, other, ActionView::AcceptOwnership) == Err::<
                OwnershipView,
                ContractError,
            >(ContractError::Unauthorized)
            &&& pending.minter_step(later, proposed, ActionView::AcceptOwnership) == Ok::<
                OwnershipView,
                ContractError,
            >(OwnershipView::held_by(Some(proposed)))
            &&& accepted.mint_error(former, id, token_owner) == Some(ContractError::Unauthorized)
        }),
{
}

/// Until a proposal is accepted the role stays with its holder, and a role
/// that was renounced stays vacant: no step brings a holder back.
pub proof fn law_renounced_role_stays_vacant(
    role: OwnershipView,
    authority: Option<Seq<char>>,
    block: BlockInfo,
    sender: Seq<char>,
    action: ActionView,
)
    requires
        role.wf(),
        role.owner is None,
        role.pending_owner is None,
    ensures
        role.step(authority, block, sender, action) is Err,
{
}

/// What holds of the registry in every state is kept by every operation,
/// whether it goes through or is rejected.
pub proof fn law_operations_keep_wf(
    before: ContractView,
    block: BlockInfo,
    sender: Seq<char>,
    msg: ExecuteMsg,
    after: ContractView,
    r: Result<ResponseView, ContractError>,
)
    requires
        before.wf(),
        execute_outcome(before, block, sender, msg, after, r),
    ensures
        after.wf(),
{
    match msg {
        ExecuteMsg::Approve { spender, token_id, expires } => {
            if r is Ok {
                let old_list = before.tokens[token_id@].approvals;
                lemma_filter_distinct(old_list, for_another(spender@));
            }
        },
        ExecuteMsg::Revoke { spender, token_id } => {
            if r is Ok {
                let old_list = before.tokens[token_id@].approvals;
                lemma_filter_distinct(old_list, for_another(spender@));
            }
        },
        _ => {},
    }
}

/// The registry starts out well formed: before it is set up, and once it
/// has been set up with a minter that can name an account.
pub proof fn law_start_is_well_formed(
    state: ContractView,
    name: Seq<char>,
    symbol: Seq<char>,
    minter: Seq<char>,
)
    requires
        state.wf(),
        valid_address(minter),
    ensures
        ContractView::blank().wf(),
        state.instantiated(name, symbol, minter).wf(),
{
}

/// Each kind of leave is enough by itself: the owner of a token, an account
/// with an approval on it that is in force, and an account with a grant of
/// its owner that is in force can each move it to any account, and burn it.
pub proof fn law_leave_suffices(
    state: ContractView,
    block: BlockInfo,
    caller: Seq<char>,
    id: Seq<char>,
    recipient: Seq<char>,
)
    requires
        state.has_token(id),
        valid_address(recipient),
        state.tokens[id].owner == caller || approval_active(state.tokens[id].approvals, caller, block)
            || state.operator_active(state.tokens[id].owner, caller, block),
    ensures
        state.transfer_error(block, caller, id, recipient) is None,
        state.burn_error(block, caller, id) is None,
{
}

/// What a token was minted with stays with it, and what was burnt stays
/// burnt: no operation changes the URI or the record of a token, none
/// brings a burnt token back, and none makes its ID free again.
pub proof fn law_history_is_kept(
    before: ContractView,
    block: BlockInfo,
    sender: Seq<char>,
    msg: ExecuteMsg,
    after: ContractView,
    r: Result<ResponseView, ContractError>,
    id: Seq<char>,
)
    requires
        before.wf(),
        execute_outcome(before, block, sender, msg, after, r),
    ensures
        before.has_token(id) && after.has_token(id) ==> after.tokens[id].token_uri
            == before.tokens[id].token_uri && after.tokens[id].extension
            == before.tokens[id].extension,
        before.retired.contains(id) ==> after.retired.contains(id) && !after.has_token(id),
        before.has_token(id) ==> after.id_taken(id),
{
}

} // verus!
