//! Tokens and the approvals that stand on them.
use crate::expiration::{BlockInfo, Expiration};
use crate::metadata::{clone_extension, extension_view, Metadata, MetadataView};
use crate::text::{clone_opt_string, opt_text, valid_address};
use vstd::prelude::*;

verus! {

/// The leave that a token's owner gave one account to move that token.
#[derive(Debug, PartialEq, Eq)]
pub struct Approval {
    /// Account that can transfer/send the token
    pub spender: String,
    /// When the Approval expires (maybe Expiration::never)
    pub expires: Expiration,
}

/// An [`Approval`] as a mathematical value.
pub struct ApprovalView {
    pub spender: Seq<char>,
    pub expires: Expiration,
}

impl View for Approval {
    type V = ApprovalView;

    open spec fn view(&self) -> ApprovalView {
        ApprovalView { spender: self.spender@, expires: self.expires }
    }
}

impl Clone for Approval {
    fn clone(&self) -> (r: Self)
        ensures
            r@ == self@,
    {
        Approval { spender: self.spender.clone(), expires: self.expires }
    }
}

/// A list of approvals as a mathematical value.
pub open spec fn approvals_view(s: Seq<Approval>) -> Seq<ApprovalView> {
    s.map_values(|a: Approval| a@)
}

/// The approval at index `i` of `a` is for the account `who`.
pub open spec fn spender_at(a: Seq<ApprovalView>, i: int, who: Seq<char>) -> bool {
    0 <= i < a.len() && a[i].spender == who
}

/// Some approval of `a` is for `who` and has not ended in `block`.
pub open spec fn approval_active(a: Seq<ApprovalView>, who: Seq<char>, block: BlockInfo) -> bool {
    exists|i: int| #[trigger] spender_at(a, i, who) && !a[i].expires.expired_at(block)
}

/// No account has two approvals in `a`.
pub open spec fn distinct_spenders(a: Seq<ApprovalView>) -> bool {
    forall|i: int, j: int| 0 <= i < j < a.len() ==> a[i].spender != a[j].spender
}

/// The test that an approval is for another account than `who`.
pub open spec fn for_another(who: Seq<char>) -> spec_fn(ApprovalView) -> bool {
    |x: ApprovalView| x.spender != who
}

/// The test that an approval is to be shown: it has not ended in `block`,
/// or those that have are asked for too.
pub open spec fn shown(block: BlockInfo, include_expired: bool) -> spec_fn(ApprovalView) -> bool {
    |x: ApprovalView| include_expired || !x.expires.expired_at(block)
}

/// The approvals of `a` in their order, without the one for `who`.
pub open spec fn without_spender(a: Seq<ApprovalView>, who: Seq<char>) -> Seq<ApprovalView> {
    a.filter(for_another(who))
}

/// The approvals of `a` in their order that are to be shown.
pub open spec fn visible(a: Seq<ApprovalView>, block: BlockInfo, include_expired: bool) -> Seq<
    ApprovalView,
> {
    a.filter(shown(block, include_expired))
}

/// Leaving approvals out keeps the others distinct, and each one that stays
/// was there before and passes the test.
pub proof fn lemma_filter_distinct(a: Seq<ApprovalView>, pred: spec_fn(ApprovalView) -> bool)
    requires
        distinct_spenders(a),
    ensures
        distinct_spenders(a.filter(pred)),
        forall|i: int|
            0 <= i < a.filter(pred).len() ==> pred(#[trigger] a.filter(pred)[i]) && a.contains(
                a.filter(pred)[i],
            ),
    decreases a.len(),
{
    let f = a.filter(pred);
    assert forall|i: int| 0 <= i < f.len() implies pred(#[trigger] f[i]) && a.contains(f[i]) by {
        a.lemma_filter_pred(pred, i);
        assert(f.contains(f[i]));
        a.lemma_filter_contains_rev(pred, f[i]);
    }
    if a.len() > 0 {
        let sub = a.drop_last();
        let g = sub.filter(pred);
        lemma_filter_distinct(sub, pred);
        assert(sub.push(a.last()) =~= a);
        sub.lemma_filter_push(a.last(), pred);
        if pred(a.last()) {
            assert(f == g.push(a.last()));
            assert forall|i: int, j: int| 0 <= i < j < f.len() implies f[i].spender
                != f[j].spender by {
                if j == g.len() {
                    assert(sub.contains(g[i]));
                    let m = choose|m: int| 0 <= m < sub.len() && sub[m] == g[i];
                    assert(a[m].spender != a[a.len() - 1].spender);
                }
            }
        } else {
            assert(f == g);
        }
    }
}

/// Tells whether some approval is for `who` and has not ended in `block`.
pub fn has_active_approval(approvals: &Vec<Approval>, who: &String, block: &BlockInfo) -> (r:
    bool)
    ensures
        r == approval_active(approvals_view(approvals@), who@, *block),
{
    let ghost av = approvals_view(approvals@);
    let mut i: usize = 0;
    while i < approvals.len()
        invariant
            i <= approvals.len(),
            av == approvals_view(approvals@),
            forall|j: int|
                0 <= j < i ==> !(#[trigger] spender_at(av, j, who@) && !av[j].expires.expired_at(
                    *block,
                )),
        decreases approvals.len() - i,
    {
        if approvals[i].spender == *who && !approvals[i].expires.is_expired(block) {
            assert(spender_at(av, i as int, who@));
            return true;
        }
        i += 1;
    }
    false
}

/// A copy of the approvals without the one for `who`, in their order.
pub fn remove_spender(approvals: &Vec<Approval>, who: &String) -> (r: Vec<Approval>)
    ensures
        approvals_view(r@) == without_spender(approvals_view(approvals@), who@),
{
    let ghost av = approvals_view(approvals@);
    let ghost keep = for_another(who@);
    let mut out: Vec<Approval> = Vec::new();
    let mut i: usize = 0;
    proof {
        assert(av.take(0) =~= Seq::<ApprovalView>::empty());
        assert(approvals_view(out@) =~= Seq::<ApprovalView>::empty());
    }
    while i < approvals.len()
        invariant
            i <= approvals.len(),
            av == approvals_view(approvals@),
            keep == for_another(who@),
            approvals_view(out@) == av.take(i as int).filter(keep),
        decreases approvals.len() - i,
    {
        proof {
            assert(av.take(i + 1) =~= av.take(i as int).push(av[i as int]));
            av.take(i as int).lemma_filter_push(av[i as int], keep);
        }
        if approvals[i].spender != *who {
            let ghost before = out@;
            out.push(approvals[i].clone());
            assert(approvals_view(out@) =~= approvals_view(before).push(av[i as int]));
        }
        i += 1;
    }
    assert(av.take(i as int) =~= av);
    out
}

/// A copy of the approvals that are to be shown in `block`, in their order:
/// all of them where those that have ended are asked for too, else those
/// that have not ended.
pub fn visible_approvals(approvals: &Vec<Approval>, block: &BlockInfo, include_expired: bool) -> (r:
    Vec<Approval>)
    ensures
        approvals_view(r@) == visible(approvals_view(approvals@), *block, include_expired),
{
    let ghost av = approvals_view(approvals@);
    let ghost keep = shown(*block, include_expired);
    let mut out: Vec<Approval> = Vec::new();
    let mut i: usize = 0;
    proof {
        assert(av.take(0) =~= Seq::<ApprovalView>::empty());
        assert(approvals_view(out@) =~= Seq::<ApprovalView>::empty());
    }
    while i < approvals.len()
        invariant
            i <= approvals.len(),
            av == approvals_view(approvals@),
            keep == shown(*block, include_expired),
            approvals_view(out@) == av.take(i as int).filter(keep),
        decreases approvals.len() - i,
    {
        proof {
            assert(av.take(i + 1) =~= av.take(i as int).push(av[i as int]));
            av.take(i as int).lemma_filter_push(av[i as int], keep);
        }
        if include_expired || !approvals[i].expires.is_expired(block) {
            let ghost before = out@;
            out.push(approvals[i].clone());
            assert(approvals_view(out@) =~= approvals_view(before).push(av[i as int]));
        }
        i += 1;
    }
    assert(av.take(i as int) =~= av);
    out
}

/// A copy of a list of approvals.
pub fn clone_approvals(approvals: &Vec<Approval>) -> (r: Vec<Approval>)
    ensures
        approvals_view(r@) == approvals_view(approvals@),
{
    let mut out: Vec<Approval> = Vec::new();
    let mut i: usize = 0;
    while i < approvals.len()
        invariant
            i <= approvals.len(),
            out.len() == i,
            forall|j: int| 0 <= j < i ==> (#[trigger] out[j])@ == approvals[j]@,
        decreases approvals.len() - i,
    {
        out.push(approvals[i].clone());
        i += 1;
    }
    assert(approvals_view(out@) =~= approvals_view(approvals@));
    out
}

/// What the registry holds of one token.
#[derive(Debug, PartialEq, Eq)]
pub struct TokenInfo {
    /// The owner of the newly minted NFT
    pub owner: String,
    /// Approvals are stored here, as we clear them all upon transfer and cannot accumulate much
    pub approvals: Vec<Approval>,
    /// Universal resource identifier for this NFT
    pub token_uri: Option<String>,
    /// The album record, where the token was minted with one
    pub extension: Option<Metadata>,
}

/// A [`TokenInfo`] as a mathematical value.
pub struct TokenView {
    pub owner: Seq<char>,
    pub approvals: Seq<ApprovalView>,
    pub token_uri: Option<Seq<char>>,
    pub extension: Option<MetadataView>,
}

impl TokenView {
    /// The owner can name an account, and no account has two approvals.
    pub open spec fn wf(self) -> bool {
        valid_address(self.owner) && distinct_spenders(self.approvals)
    }

    /// The token as it is after a move to `recipient`: the approvals are
    /// gone, the rest is as before.
    pub open spec fn moved_to(self, recipient: Seq<char>) -> TokenView {
        TokenView { owner: recipient, approvals: Seq::empty(), ..self }
    }

    /// The token with `approvals` in place of its own.
    pub open spec fn with_approvals(self, approvals: Seq<ApprovalView>) -> TokenView {
        TokenView { approvals, ..self }
    }
}

impl View for TokenInfo {
    type V = TokenView;

    open spec fn view(&self) -> TokenView {
        TokenView {
            owner: self.owner@,
            approvals: approvals_view(self.approvals@),
            token_uri: opt_text(self.token_uri),
            extension: extension_view(self.extension),
        }
    }
}

impl Clone for TokenInfo {
    fn clone(&self) -> (r: Self)
        ensures
            r@ == self@,
    {
        TokenInfo {
            owner: self.owner.clone(),
            approvals: clone_approvals(&self.approvals),
            token_uri: clone_opt_string(&self.token_uri),
            extension: clone_extension(&self.extension),
        }
    }
}

/// A token with its ID, as the registry lists it.
#[derive(Debug, PartialEq, Eq)]
pub struct Token {
    pub token_id: String,
    pub info: TokenInfo,
}

} // verus!
