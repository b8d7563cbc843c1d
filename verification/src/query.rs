//! The questions that the registry answers. None of them changes it.
use crate::assoc::{distinct_keys, has_key, lemma_entry, lemma_position, position};
use crate::error::ContractError;
use crate::expiration::{BlockInfo, Env, Expiration};
use crate::metadata::{clone_extension, extension_view, Metadata, MetadataView};
use crate::model::ContractView;
use crate::ownership::Ownership;
use crate::state::{
    find_grant, find_token, lemma_ascending_distinct, lemma_view_wf, token_pairs,
    Cw721MetadataContract,
};
use crate::text::{clone_opt_string, is_valid_address, opt_text, precedes, string_lt, valid_address};
use crate::token::{
    approvals_view, distinct_spenders, shown, spender_at, visible, visible_approvals, Approval,
    ApprovalView,
};
use vstd::prelude::*;

verus! {

/// The name and the symbol of the collection.
#[derive(Debug, PartialEq, Eq)]
pub struct ContractInfoResponse {
    pub name: String,
    pub symbol: String,
}

/// How many tokens there are.
#[derive(Clone, Copy, Debug, PartialEq, Eq, Structural)]
pub struct NumTokensResponse {
    pub count: u64,
}

/// What a token carries: its URI and its album record.
#[derive(Debug, PartialEq, Eq)]
pub struct NftInfoResponse {
    pub token_uri: Option<String>,
    pub extension: Option<Metadata>,
}

/// A [`NftInfoResponse`] as a mathematical value.
pub struct NftInfoView {
    pub token_uri: Option<Seq<char>>,
    pub extension: Option<MetadataView>,
}

impl View for NftInfoResponse {
    type V = NftInfoView;

    open spec fn view(&self) -> NftInfoView {
        NftInfoView {
            token_uri: opt_text(self.token_uri),
            extension: extension_view(self.extension),
        }
    }
}

/// Who owns a token, and who is approved on it.
#[derive(Debug, PartialEq, Eq)]
pub struct OwnerOfResponse {
    pub owner: String,
    pub approvals: Vec<Approval>,
}

/// An [`OwnerOfResponse`] as a mathematical value.
pub struct OwnerOfView {
    pub owner: Seq<char>,
    pub approvals: Seq<ApprovalView>,
}

impl View for OwnerOfResponse {
    type V = OwnerOfView;

    open spec fn view(&self) -> OwnerOfView {
        OwnerOfView { owner: self.owner@, approvals: approvals_view(self.approvals@) }
    }
}

/// Both answers on one token.
#[derive(Debug, PartialEq, Eq)]
pub struct AllNftInfoResponse {
    pub access: OwnerOfResponse,
    pub info: NftInfoResponse,
}

/// One approval or grant.
#[derive(Debug, PartialEq, Eq)]
pub struct ApprovalResponse {
    pub approval: Approval,
}

/// The approvals on a token.
#[derive(Debug, PartialEq, Eq)]
pub struct ApprovalsResponse {
    pub approvals: Vec<Approval>,
}

/// The grant of an operator.
#[derive(Debug, PartialEq, Eq)]
pub struct OperatorResponse {
    pub approval: Approval,
}

/// A page of token IDs.
#[derive(Debug, PartialEq, Eq)]
pub struct TokensResponse {
    pub tokens: Vec<String>,
}

/// Shows who can mint these tokens
#[derive(Debug, PartialEq, Eq)]
pub struct MinterResponse {
    pub minter: Option<String>,
}

/// The texts that a list of strings reads, in order.
pub open spec fn texts(s: Seq<String>) -> Seq<Seq<char>> {
    s.map_values(|t: String| t@)
}

/// The size of a page where none is asked for.
pub const DEFAULT_LIMIT: u32 = 10;

/// The largest size of a page.
pub const MAX_LIMIT: u32 = 100;

/// The size of the page that is given where `limit` is asked for.
pub open spec fn page_size(limit: Option<u32>) -> nat {
    match limit {
        Some(n) => if n <= MAX_LIMIT {
            n as nat
        } else {
            MAX_LIMIT as nat
        },
        None => DEFAULT_LIMIT as nat,
    }
}

/// `k` comes after the place where the page before ended, if there was one.
pub open spec fn after(start_after: Option<Seq<char>>, k: Seq<char>) -> bool {
    match start_after {
        Some(s) => precedes(s, k),
        None => true,
    }
}

/// The texts stand in strictly ascending order.
pub open spec fn ascending(r: Seq<Seq<char>>) -> bool {
    forall|i: int, j: int| 0 <= i < j < r.len() ==> precedes(r[i], r[j])
}

/// `r` is the page of at most `limit` of the keys that come after
/// `start_after`: it holds such keys in ascending order, and a key that
/// comes after `start_after` and is not on it comes after a full page.
pub open spec fn is_page(
    r: Seq<Seq<char>>,
    keys: Set<Seq<char>>,
    start_after: Option<Seq<char>>,
    limit: nat,
) -> bool {
    &&& r.len() <= limit
    &&& ascending(r)
    &&& forall|i: int| 0 <= i < r.len() ==> keys.contains(#[trigger] r[i]) && after(start_after, r[i])
    &&& forall|k: Seq<char>| #[trigger]
        keys.contains(k) && after(start_after, k) ==> r.contains(k) || (r.len() == limit && (limit
            == 0 || precedes(r[limit - 1], k)))
}

/// The approval at index `i` of `a` is for `spender` and to be shown.
pub open spec fn shown_for(
    a: Seq<ApprovalView>,
    i: int,
    spender: Seq<char>,
    block: BlockInfo,
    include_expired: bool,
) -> bool {
    spender_at(a, i, spender) && shown(block, include_expired)(a[i])
}

/// The approval for `spender` among `a`, where there is one to be shown.
pub open spec fn approval_of(
    a: Seq<ApprovalView>,
    spender: Seq<char>,
    block: BlockInfo,
    include_expired: bool,
) -> Option<ApprovalView> {
    if exists|i: int| #[trigger] shown_for(a, i, spender, block, include_expired) {
        Some(a[choose|i: int| #[trigger] shown_for(a, i, spender, block, include_expired)])
    } else {
        None
    }
}

impl ContractView {
    /// The IDs of the tokens of `owner`.
    pub open spec fn owned_by(self, owner: Seq<char>) -> Set<Seq<char>> {
        Set::new(|id: Seq<char>| self.has_token(id) && self.tokens[id].owner == owner)
    }

    /// The IDs that a listing is about: those of the tokens of `owner`, or
    /// of all tokens where no owner is named.
    pub open spec fn listed(self, owner: Option<Seq<char>>) -> Set<Seq<char>> {
        match owner {
            Some(o) => self.owned_by(o),
            None => self.tokens.dom(),
        }
    }

    /// What a token carries.
    pub open spec fn nft_info(self, id: Seq<char>) -> Result<NftInfoView, ContractError> {
        if self.has_token(id) {
            Ok(
                NftInfoView {
                    token_uri: self.tokens[id].token_uri,
                    extension: self.tokens[id].extension,
                },
            )
        } else {
            Err(ContractError::NotFound)
        }
    }

    /// Who owns a token, and which approvals on it are to be shown.
    pub open spec fn owner_of(
        self,
        block: BlockInfo,
        id: Seq<char>,
        include_expired: bool,
    ) -> Result<OwnerOfView, ContractError> {
        if self.has_token(id) {
            Ok(
                OwnerOfView {
                    owner: self.tokens[id].owner,
                    approvals: visible(self.tokens[id].approvals, block, include_expired),
                },
            )
        } else {
            Err(ContractError::NotFound)
        }
    }

    /// The approval of `spender` on a token. The owner counts as approved
    /// without end.
    pub open spec fn approval(
        self,
        block: BlockInfo,
        id: Seq<char>,
        spender: Seq<char>,
        include_expired: bool,
    ) -> Result<ApprovalView, ContractError> {
        if !self.has_token(id) {
            Err(ContractError::NotFound)
        } else if self.tokens[id].owner == spender {
            Ok(ApprovalView { spender, expires: Expiration::Never })
        } else {
            match approval_of(self.tokens[id].approvals, spender, block, include_expired) {
                Some(a) => Ok(a),
                None => Err(ContractError::NotFound),
            }
        }
    }

    /// The grant that `owner` gave `operator`, where it is to be shown.
    pub open spec fn operator(
        self,
        block: BlockInfo,
        owner: Seq<char>,
        operator: Seq<char>,
        include_expired: bool,
    ) -> Result<ApprovalView, ContractError> {
        if !valid_address(owner) || !valid_address(operator) {
            Err(ContractError::InvalidInput)
        } else if self.operators.dom().contains((owner, operator)) && shown(block, include_expired)(
            ApprovalView { spender: operator, expires: self.operators[(owner, operator)] },
        ) {
            Ok(ApprovalView { spender: operator, expires: self.operators[(owner, operator)] })
        } else {
            Err(ContractError::NotFound)
        }
    }
}

impl Cw721MetadataContract {
    /// The name and the symbol of the collection.
    pub fn contract_info(&self) -> (r: ContractInfoResponse)
        ensures
            r.name@ == self@.name,
            r.symbol@ == self@.symbol,
    {
        ContractInfoResponse { name: self.name.clone(), symbol: self.symbol.clone() }
    }

    /// How many tokens there are.
    pub fn num_tokens(&self) -> (r: NumTokensResponse)
        requires
            self.wf(),
        ensures
            r.count == self@.tokens.dom().len(),
    {
        proof {
            lemma_view_wf(self);
        }
        NumTokensResponse { count: self.tokens.len() as u64 }
    }

    /// Who can mint, if anyone.
    pub fn minter(&self) -> (r: MinterResponse)
        ensures
            opt_text(r.minter) == self@.minter.owner,
    {
        MinterResponse { minter: clone_opt_string(&self.minter.owner) }
    }

    /// The role of the contract's owner.
    pub fn ownership(&self) -> (r: Ownership)
        ensures
            r@ == self@.creator,
    {
        self.creator.clone()
    }

    /// The minter role, with what is pending on it.
    pub fn minter_ownership(&self) -> (r: Ownership)
        ensures
            r@ == self@.minter,
    {
        self.minter.clone()
    }

    /// What the token `token_id` carries.
    pub fn nft_info(&self, token_id: String) -> (r: Result<NftInfoResponse, ContractError>)
        requires
            self.wf(),
        ensures
            match r {
                Ok(info) => self@.nft_info(token_id@) == Ok::<NftInfoView, ContractError>(info@),
                Err(e) => self@.nft_info(token_id@) == Err::<NftInfoView, ContractError>(e),
            },
    {
        match find_token(&self.tokens, &token_id) {
            Some(i) => Ok(
                NftInfoResponse {
                    token_uri: clone_opt_string(&self.tokens[i].info.token_uri),
                    extension: clone_extension(&self.tokens[i].info.extension),
                },
            ),
            None => Err(ContractError::NotFound),
        }
    }

    /// Who owns the token `token_id`, and who is approved on it. Approvals
    /// that have ended are left out unless they are asked for.
    pub fn owner_of(&self, env: &Env, token_id: String, include_expired: bool) -> (r: Result<
        OwnerOfResponse,
        ContractError,
    >)
        requires
            self.wf(),
        ensures
            match r {
                Ok(access) => self@.owner_of(env.block, token_id@, include_expired) == Ok::<
                    OwnerOfView,
                    ContractError,
                >(access@),
                Err(e) => self@.owner_of(env.block, token_id@, include_expired) == Err::<
                    OwnerOfView,
                    ContractError,
                >(e),
            },
    {
        match find_token(&self.tokens, &token_id) {
            Some(i) => Ok(
                OwnerOfResponse {
                    owner: self.tokens[i].info.owner.clone(),
                    approvals: visible_approvals(
                        &self.tokens[i].info.approvals,
                        &env.block,
                        include_expired,
                    ),
                },
            ),
            None => Err(ContractError::NotFound),
        }
    }

    /// Both answers on the token `token_id`.
    pub fn all_nft_info(&self, env: &Env, token_id: String, include_expired: bool) -> (r: Result<
        AllNftInfoResponse,
        ContractError,
    >)
        requires
            self.wf(),
        ensures
            match r {
                Ok(all) => {
                    &&& self@.owner_of(env.block, token_id@, include_expired) == Ok::<
                        OwnerOfView,
                        ContractError,
                    >(all.access@)
                    &&& self@.nft_info(token_id@) == Ok::<NftInfoView, ContractError>(all.info@)
                },
                Err(e) => !self@.has_token(token_id@) && e == ContractError::NotFound,
            },
    {
        match find_token(&self.tokens, &token_id) {
            Some(i) => Ok(
                AllNftInfoResponse {
                    access: OwnerOfResponse {
                        owner: self.tokens[i].info.owner.clone(),
                        approvals: visible_approvals(
                            &self.tokens[i].info.approvals,
                            &env.block,
                            include_expired,
                        ),
                    },
                    info: NftInfoResponse {
                        token_uri: clone_opt_string(&self.tokens[i].info.token_uri),
                        extension: clone_extension(&self.tokens[i].info.extension),
                    },
                },
            ),
            None => Err(ContractError::NotFound),
        }
    }

    /// The approvals on the token `token_id`. Those that have ended are left
    /// out unless they are asked for.
    pub fn approvals(&self, env: &Env, token_id: String, include_expired: bool) -> (r: Result<
        ApprovalsResponse,
        ContractError,
    >)
        requires
            self.wf(),
        ensures
            match r {
                Ok(list) => self@.has_token(token_id@) && approvals_view(list.approvals@) == visible(
                    self@.tokens[token_id@].approvals,
                    env.block,
                    include_expired,
                ),
                Err(e) => !self@.has_token(token_id@) && e == ContractError::NotFound,
            },
    {
        match find_token(&self.tokens, &token_id) {
            Some(i) => Ok(
                ApprovalsResponse {
                    approvals: visible_approvals(
                        &self.tokens[i].info.approvals,
                        &env.block,
                        include_expired,
                    ),
                },
            ),
            None => Err(ContractError::NotFound),
        }
    }

    /// The approval of `spender` on the token `token_id`. The owner counts
    /// as approved without end. One that has ended is not found unless it is
    /// asked for.
    pub fn approval(&self, env: &Env, token_id: String, spender: String, include_expired: bool) -> (r:
        Result<ApprovalResponse, ContractError>)
        requires
            self.wf(),
        ensures
            match r {
                Ok(found) => self@.approval(env.block, token_id@, spender@, include_expired) == Ok::<
                    ApprovalView,
                    ContractError,
                >(found.approval@),
                Err(e) => self@.approval(env.block, token_id@, spender@, include_expired) == Err::<
                    ApprovalView,
                    ContractError,
                >(e),
            },
    {
        let i = match find_token(&self.tokens, &token_id) {
            Some(i) => i,
            None => {
                return Err(ContractError::NotFound);
            },
        };
        let info = &self.tokens[i].info;
        if info.owner == spender {
            return Ok(ApprovalResponse { approval: Approval { spender, expires: Expiration::Never } });
        }
        let ghost av = approvals_view(info.approvals@);
        let mut j: usize = 0;
        while j < info.approvals.len()
            invariant
                j <= info.approvals.len(),
                av == approvals_view(info.approvals@),
                distinct_spenders(av),
                self@.has_token(token_id@),
                self@.tokens[token_id@].approvals == av,
                self@.tokens[token_id@].owner != spender@,
                forall|m: int|
                    0 <= m < j ==> !#[trigger] shown_for(
                        av,
                        m,
                        spender@,
                        env.block,
                        include_expired,
                    ),
            decreases info.approvals.len() - j,
        {
            let a = &info.approvals[j];
            if a.spender == spender && (include_expired || !a.expires.is_expired(&env.block)) {
                proof {
                    assert(shown_for(av, j as int, spender@, env.block, include_expired));
                    let c = choose|m: int| #[trigger]
                        shown_for(av, m, spender@, env.block, include_expired);
                    assert(c == j) by {
                        if c < j {
                            assert(av[c].spender != av[j as int].spender);
                        } else if c > j {
                            assert(av[j as int].spender != av[c].spender);
                        }
                    }
                }
                return Ok(ApprovalResponse { approval: a.clone() });
            }
            j += 1;
        }
        Err(ContractError::NotFound)
    }

    /// The grant that `owner` gave `operator` over all their tokens. One
    /// that has ended is not found unless it is asked for.
    pub fn operator(&self, env: &Env, owner: String, operator: String, include_expired: bool) -> (r:
        Result<OperatorResponse, ContractError>)
        requires
            self.wf(),
        ensures
            match r {
                Ok(found) => self@.operator(env.block, owner@, operator@, include_expired) == Ok::<
                    ApprovalView,
                    ContractError,
                >(found.approval@),
                Err(e) => self@.operator(env.block, owner@, operator@, include_expired) == Err::<
                    ApprovalView,
                    ContractError,
                >(e),
            },
    {
        if !is_valid_address(&owner) || !is_valid_address(&operator) {
            return Err(ContractError::InvalidInput);
        }
        match find_grant(&self.operators, &owner, &operator) {
            Some(i) => {
                let expires = self.operators[i].expires;
                if include_expired || !expires.is_expired(&env.block) {
                    Ok(OperatorResponse { approval: Approval { spender: operator, expires } })
                } else {
                    Err(ContractError::NotFound)
                }
            },
            None => Err(ContractError::NotFound),
        }
    }

    /// The first `limit` IDs, in ascending order, of the tokens of `owner`
    /// (of all tokens where none is named) that come after `start_after`.
    fn page(&self, owner: &Option<String>, start_after: &Option<String>, limit: usize) -> (r: Vec<
        String,
    >)
        requires
            self.wf(),
        ensures
            is_page(
                texts(r@),
                self@.listed(opt_text(*owner)),
                opt_text(*start_after),
                limit as nat,
            ),
    {
        let ghost keys = self@.listed(opt_text(*owner));
        let ghost start = opt_text(*start_after);
        let ghost pairs = token_pairs(self.tokens@);
        let mut out: Vec<String> = Vec::new();
        let mut i: usize = 0;
        proof {
            lemma_ascending_distinct(self.tokens@);
        }
        while i < self.tokens.len() && out.len() < limit
            invariant
                self.wf(),
                distinct_keys(pairs),
                pairs == token_pairs(self.tokens@),
                keys == self@.listed(opt_text(*owner)),
                start == opt_text(*start_after),
                i <= self.tokens.len(),
                out.len() <= limit,
                ascending(texts(out@)),
                forall|j: int|
                    0 <= j < out.len() ==> keys.contains(#[trigger] texts(out@)[j]) && after(
                        start,
                        texts(out@)[j],
                    ),
                forall|j: int, m: int|
                    0 <= j < out.len() && i <= m < self.tokens.len() ==> precedes(
                        #[trigger] texts(out@)[j],
                        #[trigger] self.tokens[m].token_id@,
                    ),
                forall|m: int|
                    0 <= m < i && keys.contains(#[trigger] self.tokens[m].token_id@) && after(
                        start,
                        self.tokens[m].token_id@,
                    ) ==> texts(out@).contains(self.tokens[m].token_id@),
            decreases self.tokens.len() - i,
        {
            let token = &self.tokens[i];
            proof {
                lemma_entry(pairs, i as int);
            }
            let mine = match owner {
                Some(o) => token.info.owner == *o,
                None => true,
            };
            let later = match start_after {
                Some(s) => string_lt(s, &token.token_id),
                None => true,
            };
            if mine && later {
                let ghost before = texts(out@);
                out.push(token.token_id.clone());
                proof {
                    let now = texts(out@);
                    assert(now =~= before.push(token.token_id@));
                    assert forall|a: int, b: int| 0 <= a < b < now.len() implies precedes(
                        now[a],
                        now[b],
                    ) by {
                        if b == before.len() {
                            assert(precedes(before[a], self.tokens[i as int].token_id@));
                        } else {
                            assert(precedes(before[a], before[b]));
                        }
                    }
                    assert forall|m: int|
                        0 <= m < i + 1 && keys.contains(#[trigger] self.tokens[m].token_id@)
                            && after(start, self.tokens[m].token_id@) implies now.contains(
                        self.tokens[m].token_id@,
                    ) by {
                        if m < i {
                            let at = choose|at: int|
                                0 <= at < before.len() && before[at] == self.tokens[m].token_id@;
                            assert(now[at] == self.tokens[m].token_id@);
                        } else {
                            assert(now[before.len() as int] == self.tokens[m].token_id@);
                        }
                    }
                    assert forall|j: int, m: int|
                        0 <= j < now.len() && i + 1 <= m < self.tokens.len() implies precedes(
                        #[trigger] now[j],
                        #[trigger] self.tokens[m].token_id@,
                    ) by {
                        if j < before.len() {
                            assert(precedes(before[j], self.tokens[m].token_id@));
                        }
                    }
                }
            }
            i += 1;
        }
        proof {
            let now = texts(out@);
            assert forall|k: Seq<char>| #[trigger] keys.contains(k) && after(start, k) implies now.contains(
                k,
            ) || (now.len() == limit && (limit == 0 || precedes(now[limit - 1], k))) by {
                assert(has_key(pairs, k));
                lemma_position(pairs, k);
                let m = position(pairs, k);
                assert(self.tokens[m].token_id@ == k);
                if m >= i && limit > 0 {
                    assert(precedes(now[limit - 1], self.tokens[m].token_id@));
                }
            }
        }
        out
    }

    /// A page of the IDs of the tokens of `owner`, in ascending order: the
    /// first `limit` of those that come after `start_after`. Where no limit
    /// is given the page has up to [`DEFAULT_LIMIT`] IDs, and never more
    /// than [`MAX_LIMIT`].
    pub fn tokens(&self, owner: String, start_after: Option<String>, limit: Option<u32>) -> (r:
        Result<TokensResponse, ContractError>)
        requires
            self.wf(),
        ensures
            match r {
                Ok(page) => valid_address(owner@) && is_page(
                    texts(page.tokens@),
                    self@.owned_by(owner@),
                    opt_text(start_after),
                    page_size(limit),
                ),
                Err(e) => !valid_address(owner@) && e == ContractError::InvalidInput,
            },
    {
        if !is_valid_address(&owner) {
            return Err(ContractError::InvalidInput);
        }
        let size = effective_limit(limit);
        Ok(TokensResponse { tokens: self.page(&Some(owner), &start_after, size) })
    }

    /// A page of the IDs of all tokens, in ascending order: the first
    /// `limit` of those that come after `start_after`. Where no limit is
    /// given the page has up to [`DEFAULT_LIMIT`] IDs, and never more than
    /// [`MAX_LIMIT`].
    pub fn all_tokens(&self, start_after: Option<String>, limit: Option<u32>) -> (r: TokensResponse)
        requires
            self.wf(),
        ensures
            is_page(texts(r.tokens@), self@.tokens.dom(), opt_text(start_after), page_size(limit)),
    {
        let size = effective_limit(limit);
        TokensResponse { tokens: self.page(&None, &start_after, size) }
    }
}

/// The size of the page that is given where `limit` is asked for.
pub fn effective_limit(limit: Option<u32>) -> (r: usize)
    ensures
        r == page_size(limit),
{
    let n: u32 = match limit {
        Some(n) => if n <= MAX_LIMIT {
            n
        } else {
            MAX_LIMIT
        },
        None => DEFAULT_LIMIT,
    };
    n as usize
}

} // verus!
