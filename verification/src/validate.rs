//! Checking a registry that was put together from parts, as one that was
//! read back from storage is, before it is worked on.
use crate::assoc::{distinct_keys, lemma_absent};
use crate::ownership::Ownership;
use crate::state::{
    find_token, grant_pairs, ids_ascend, token_pairs, Cw721MetadataContract, OperatorGrant,
};
use crate::text::{is_valid_address, lemma_precedes_transitive, precedes, string_lt};
use crate::token::{approvals_view, distinct_spenders, Approval, Token};
use vstd::prelude::*;

verus! {

/// Tells whether no account has two approvals in the list.
pub fn spenders_distinct(approvals: &Vec<Approval>) -> (r: bool)
    ensures
        r == distinct_spenders(approvals_view(approvals@)),
{
    let ghost av = approvals_view(approvals@);
    let mut j: usize = 0;
    while j < approvals.len()
        invariant
            j <= approvals.len(),
            av == approvals_view(approvals@),
            forall|a: int, b: int| 0 <= a < b < j ==> av[a].spender != av[b].spender,
        decreases approvals.len() - j,
    {
        let mut i: usize = 0;
        while i < j
            invariant
                i <= j,
                j < approvals.len(),
                av == approvals_view(approvals@),
                forall|a: int| 0 <= a < i ==> av[a].spender != av[j as int].spender,
            decreases j - i,
        {
            if approvals[i].spender == approvals[j].spender {
                assert(av[i as int].spender == av[j as int].spender);
                return false;
            }
            i += 1;
        }
        j += 1;
    }
    true
}

/// Tells whether no owner has given the same operator two grants.
pub fn grants_distinct(grants: &Vec<OperatorGrant>) -> (r: bool)
    ensures
        r == distinct_keys(grant_pairs(grants@)),
{
    let ghost pairs = grant_pairs(grants@);
    let mut j: usize = 0;
    while j < grants.len()
        invariant
            j <= grants.len(),
            pairs == grant_pairs(grants@),
            forall|a: int, b: int| 0 <= a < b < j ==> pairs[a].0 != pairs[b].0,
        decreases grants.len() - j,
    {
        let mut i: usize = 0;
        while i < j
            invariant
                i <= j,
                j < grants.len(),
                pairs == grant_pairs(grants@),
                forall|a: int| 0 <= a < i ==> pairs[a].0 != pairs[j as int].0,
            decreases j - i,
        {
            if grants[i].owner == grants[j].owner && grants[i].operator == grants[j].operator {
                assert(pairs[i as int].0 == pairs[j as int].0);
                return false;
            }
            i += 1;
        }
        j += 1;
    }
    true
}

/// Tells whether the tokens stand in the strictly ascending order of their
/// IDs.
pub fn tokens_ascend(tokens: &Vec<Token>) -> (r: bool)
    ensures
        r == ids_ascend(tokens@),
{
    if tokens.len() < 2 {
        return true;
    }
    let mut i: usize = 0;
    while i + 1 < tokens.len()
        invariant
            i < tokens.len(),
            forall|a: int, b: int|
                0 <= a < b <= i ==> precedes(tokens[a].token_id@, tokens[b].token_id@),
        decreases tokens.len() - i,
    {
        if !string_lt(&tokens[i].token_id, &tokens[i + 1].token_id) {
            return false;
        }
        proof {
            assert forall|a: int| 0 <= a < i implies precedes(
                (#[trigger] tokens[a]).token_id@,
                tokens[i + 1].token_id@,
            ) by {
                assert(precedes(tokens[a].token_id@, tokens[i as int].token_id@));
                lemma_precedes_transitive(
                    tokens[a].token_id@,
                    tokens[i as int].token_id@,
                    tokens[i + 1].token_id@,
                );
            }
        }
        i += 1;
    }
    true
}

impl Ownership {
    /// Tells whether the role is well formed.
    pub fn is_well_formed(&self) -> (r: bool)
        ensures
            r == self@.wf(),
    {
        let owner_ok = match &self.owner {
            Some(a) => is_valid_address(a),
            None => true,
        };
        let pending_ok = match &self.pending_owner {
            Some(a) => is_valid_address(a),
            None => self.pending_expiry.is_none(),
        };
        owner_ok && pending_ok
    }
}

impl Cw721MetadataContract {
    /// Tells whether the registry is well formed. A registry that the
    /// operations of this crate have made is; one that was put together from
    /// parts is to be checked before it is worked on.
    pub fn is_well_formed(&self) -> (r: bool)
        ensures
            r == self.wf(),
    {
        if !self.minter.is_well_formed() || !self.creator.is_well_formed() {
            return false;
        }
        if !tokens_ascend(&self.tokens) || !grants_distinct(&self.operators) {
            return false;
        }
        let mut i: usize = 0;
        while i < self.tokens.len()
            invariant
                i <= self.tokens.len(),
                forall|a: int| 0 <= a < i ==> (#[trigger] self.tokens[a]).info@.wf(),
            decreases self.tokens.len() - i,
        {
            let info = &self.tokens[i].info;
            if !is_valid_address(&info.owner) || !spenders_distinct(&info.approvals) {
                assert(!self.tokens[i as int].info@.wf());
                return false;
            }
            i += 1;
        }
        let ghost pairs = token_pairs(self.tokens@);
        let mut k: usize = 0;
        while k < self.retired.len()
            invariant
                k <= self.retired.len(),
                ids_ascend(self.tokens@),
                pairs == token_pairs(self.tokens@),
                forall|a: int, b: int|
                    0 <= a < k && 0 <= b < self.tokens.len() ==> (#[trigger] self.retired[a])@ != (
                    #[trigger] self.tokens[b]).token_id@,
            decreases self.retired.len() - k,
        {
            match find_token(&self.tokens, &self.retired[k]) {
                Some(at) => {
                    assert(self.retired[k as int]@ == self.tokens[at as int].token_id@);
                    return false;
                },
                None => {
                    proof {
                        lemma_absent(pairs, self.retired[k as int]@);
                        assert forall|b: int| 0 <= b < self.tokens.len() implies self.retired[k as int]@
                            != (#[trigger] self.tokens[b]).token_id@ by {
                            assert(pairs[b].0 != self.retired[k as int]@);
                        }
                    }
                },
            }
            k += 1;
        }
        true
    }
}

} // verus!
