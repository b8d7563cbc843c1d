//! The registry as it is held in memory, and how to find things in it.
use crate::assoc::{
    as_map, distinct_keys, key_at, lemma_absent, lemma_entry, lemma_remove, lemma_size,
    lemma_update,
};
use crate::expiration::{BlockInfo, Expiration};
use crate::model::ContractView;
use crate::ownership::Ownership;
use crate::text::{
    lemma_precedes_irreflexive, lemma_precedes_total, lemma_precedes_transitive, precedes,
    string_lt,
};
use crate::token::{Token, TokenView};
use vstd::prelude::*;

verus! {

/// The leave that an owner gave an operator to act on all their tokens.
#[derive(Debug, PartialEq, Eq)]
pub struct OperatorGrant {
    pub owner: String,
    pub operator: String,
    pub expires: Expiration,
}

/// The registry: the collection's name and symbol, the two roles, the
/// tokens in the order of their IDs, the IDs of burnt tokens, and the
/// grants over all tokens of an owner.
#[derive(Debug, PartialEq, Eq)]
pub struct Cw721MetadataContract {
    pub name: String,
    pub symbol: String,
    pub minter: Ownership,
    pub creator: Ownership,
    pub tokens: Vec<Token>,
    pub retired: Vec<String>,
    pub operators: Vec<OperatorGrant>,
}

/// The tokens as pairs of an ID and what is held of the token.
pub open spec fn token_pairs(s: Seq<Token>) -> Seq<(Seq<char>, TokenView)> {
    s.map_values(|t: Token| (t.token_id@, t.info@))
}

/// The grants as pairs of owner with operator, and the end of the grant.
pub open spec fn grant_pairs(s: Seq<OperatorGrant>) -> Seq<((Seq<char>, Seq<char>), Expiration)> {
    s.map_values(|g: OperatorGrant| ((g.owner@, g.operator@), g.expires))
}

/// The string at index `i` of `s` reads `k`.
pub open spec fn text_at(s: Seq<String>, i: int, k: Seq<char>) -> bool {
    0 <= i < s.len() && s[i]@ == k
}

/// The texts that the strings of `s` read.
pub open spec fn text_set(s: Seq<String>) -> Set<Seq<char>> {
    Set::new(|k: Seq<char>| exists|i: int| #[trigger] text_at(s, i, k))
}

/// The IDs stand in strictly ascending order.
pub open spec fn ids_ascend(s: Seq<Token>) -> bool {
    forall|i: int, j: int| 0 <= i < j < s.len() ==> precedes(s[i].token_id@, s[j].token_id@)
}

impl View for Cw721MetadataContract {
    type V = ContractView;

    open spec fn view(&self) -> ContractView {
        ContractView {
            name: self.name@,
            symbol: self.symbol@,
            minter: self.minter@,
            creator: self.creator@,
            tokens: as_map(token_pairs(self.tokens@)),
            retired: text_set(self.retired@),
            operators: as_map(grant_pairs(self.operators@)),
        }
    }
}

impl Cw721MetadataContract {
    /// The registry is well formed: the tokens stand in the order of their
    /// IDs, each is well formed, no burnt token's ID is in use, no grant
    /// stands twice, and the two roles are well formed.
    pub open spec fn wf(&self) -> bool {
        &&& ids_ascend(self.tokens@)
        &&& forall|i: int| 0 <= i < self.tokens.len() ==> (#[trigger] self.tokens[i]).info@.wf()
        &&& forall|i: int, j: int|
            0 <= i < self.retired.len() && 0 <= j < self.tokens.len() ==> (#[trigger] self.retired[i])@
                != (#[trigger] self.tokens[j]).token_id@
        &&& distinct_keys(grant_pairs(self.operators@))
        &&& self.minter@.wf()
        &&& self.creator@.wf()
    }

    /// The IDs of the tokens, in ascending order.
    pub open spec fn token_ids(&self) -> Seq<Seq<char>> {
        self.tokens@.map_values(|t: Token| t.token_id@)
    }
}

/// Tokens in ascending order have distinct IDs.
pub proof fn lemma_ascending_distinct(s: Seq<Token>)
    requires
        ids_ascend(s),
    ensures
        distinct_keys(token_pairs(s)),
{
    let pairs = token_pairs(s);
    assert forall|i: int, j: int| 0 <= i < j < pairs.len() implies pairs[i].0 != pairs[j].0 by {
        assert(precedes(s[i].token_id@, s[j].token_id@));
        lemma_precedes_irreflexive(s[i].token_id@);
    }
}

/// A well-formed registry stands for a well-formed mathematical value.
pub proof fn lemma_view_wf(c: &Cw721MetadataContract)
    requires
        c.wf(),
    ensures
        c@.wf(),
        distinct_keys(token_pairs(c.tokens@)),
        c@.tokens.dom().len() == c.tokens.len(),
{
    let pairs = token_pairs(c.tokens@);
    lemma_ascending_distinct(c.tokens@);
    lemma_size(pairs);
    assert forall|id: Seq<char>| #[trigger] c@.tokens.dom().contains(id) implies c@.tokens[id].wf()
        && !c@.retired.contains(id) by {
        let i = choose|i: int| #[trigger] key_at(pairs, i, id);
        lemma_entry(pairs, i);
        assert(c.tokens[i].info@.wf());
        if c@.retired.contains(id) {
            let j = choose|j: int| #[trigger] text_at(c.retired@, j, id);
            assert(c.retired[j]@ != c.tokens[i].token_id@);
        }
    }
}

/// Replacing what is held of the token at index `i` replaces the map's entry
/// for its ID and keeps the registry well formed.
pub proof fn lemma_token_replaced(
    before: &Cw721MetadataContract,
    after: &Cw721MetadataContract,
    i: int,
)
    requires
        before.wf(),
        0 <= i < before.tokens.len(),
        after.tokens.len() == before.tokens.len(),
        forall|j: int| 0 <= j < before.tokens.len() && j != i ==> after.tokens[j] == before.tokens[j],
        after.tokens[i].token_id@ == before.tokens[i].token_id@,
        after.tokens[i].info@.wf(),
        after.name == before.name,
        after.symbol == before.symbol,
        after.minter == before.minter,
        after.creator == before.creator,
        after.retired == before.retired,
        after.operators == before.operators,
    ensures
        after.wf(),
        after@ == (ContractView {
            tokens: before@.tokens.insert(before.tokens[i].token_id@, after.tokens[i].info@),
            ..before@
        }),
{
    let pairs = token_pairs(before.tokens@);
    lemma_ascending_distinct(before.tokens@);
    lemma_update(pairs, i, after.tokens[i].info@);
    assert(token_pairs(after.tokens@) =~= pairs.update(i, (pairs[i].0, after.tokens[i].info@)));
    assert forall|a: int, b: int| 0 <= a < b < after.tokens.len() implies precedes(
        after.tokens[a].token_id@,
        after.tokens[b].token_id@,
    ) by {
        assert(precedes(before.tokens[a].token_id@, before.tokens[b].token_id@));
    }
    assert forall|a: int, b: int|
        0 <= a < after.retired.len() && 0 <= b < after.tokens.len() implies (
    #[trigger] after.retired[a])@ != (#[trigger] after.tokens[b]).token_id@ by {
        assert(before.retired[a]@ != before.tokens[b].token_id@);
    }
}

/// Taking the token at index `i` out and noting its ID among the burnt ones
/// removes the map's entry for the ID and keeps the registry well formed.
pub proof fn lemma_token_removed(
    before: &Cw721MetadataContract,
    after: &Cw721MetadataContract,
    i: int,
)
    requires
        before.wf(),
        0 <= i < before.tokens.len(),
        after.tokens@ == before.tokens@.remove(i),
        after.retired@ == before.retired@.push(before.tokens[i].token_id),
        after.name == before.name,
        after.symbol == before.symbol,
        after.minter == before.minter,
        after.creator == before.creator,
        after.operators == before.operators,
    ensures
        after.wf(),
        after@ == before@.burnt(before.tokens[i].token_id@),
{
    let id = before.tokens[i].token_id@;
    let pairs = token_pairs(before.tokens@);
    lemma_ascending_distinct(before.tokens@);
    lemma_remove(pairs, i);
    assert(token_pairs(after.tokens@) =~= pairs.remove(i));
    assert forall|a: int, b: int| 0 <= a < b < after.tokens.len() implies precedes(
        after.tokens[a].token_id@,
        after.tokens[b].token_id@,
    ) by {
        let a0 = if a < i { a } else { a + 1 };
        let b0 = if b < i { b } else { b + 1 };
        assert(precedes(before.tokens[a0].token_id@, before.tokens[b0].token_id@));
    }
    assert forall|b: int| 0 <= b < after.tokens.len() implies (#[trigger] after.tokens[b]).info@.wf()
        && after.tokens[b].token_id@ != id by {
        let b0 = if b < i { b } else { b + 1 };
        assert(after.tokens[b] == before.tokens[b0]);
        assert(pairs[b0].0 != pairs[i].0);
    }
    assert forall|a: int, b: int|
        0 <= a < after.retired.len() && 0 <= b < after.tokens.len() implies (
    #[trigger] after.retired[a])@ != (#[trigger] after.tokens[b]).token_id@ by {
        let b0 = if b < i { b } else { b + 1 };
        assert(after.tokens[b] == before.tokens[b0]);
        if a < before.retired.len() {
            assert(before.retired[a]@ != before.tokens[b0].token_id@);
        }
    }
    assert forall|k: Seq<char>| text_set(after.retired@).contains(k) == text_set(
        before.retired@,
    ).insert(id).contains(k) by {
        if text_set(after.retired@).contains(k) {
            let a = choose|a: int| #[trigger] text_at(after.retired@, a, k);
            if a < before.retired.len() {
                assert(text_at(before.retired@, a, k));
            }
        }
        if text_set(before.retired@).contains(k) {
            let a = choose|a: int| #[trigger] text_at(before.retired@, a, k);
            assert(text_at(after.retired@, a, k));
        }
        if k == id {
            assert(text_at(after.retired@, before.retired.len() as int, k));
        }
    }
    assert(text_set(after.retired@) =~= text_set(before.retired@).insert(id));
}

/// Looks a token up by its ID.
pub fn find_token(tokens: &Vec<Token>, id: &String) -> (r: Option<usize>)
    requires
        ids_ascend(tokens@),
    ensures
        match r {
            Some(i) => i < tokens.len() && tokens[i as int].token_id@ == id@ && as_map(
                token_pairs(tokens@),
            ).dom().contains(id@) && as_map(token_pairs(tokens@))[id@] == tokens[i as int].info@,
            None => !as_map(token_pairs(tokens@)).dom().contains(id@),
        },
{
    let ghost pairs = token_pairs(tokens@);
    let mut i: usize = 0;
    while i < tokens.len()
        invariant
            i <= tokens.len(),
            ids_ascend(tokens@),
            pairs == token_pairs(tokens@),
            forall|j: int| 0 <= j < i ==> !#[trigger] key_at(pairs, j, id@),
        decreases tokens.len() - i,
    {
        if tokens[i].token_id == *id {
            proof {
                lemma_ascending_distinct(tokens@);
                lemma_entry(pairs, i as int);
            }
            return Some(i);
        }
        i += 1;
    }
    None
}

/// The index at which a token with a new ID is to stand: behind the tokens
/// whose IDs come before it.
pub fn insert_position(tokens: &Vec<Token>, id: &String) -> (r: usize)
    requires
        ids_ascend(tokens@),
        !as_map(token_pairs(tokens@)).dom().contains(id@),
    ensures
        r <= tokens.len(),
        forall|j: int| 0 <= j < r ==> precedes(#[trigger] tokens[j].token_id@, id@),
        forall|j: int| r <= j < tokens.len() ==> precedes(id@, #[trigger] tokens[j].token_id@),
{
    let ghost pairs = token_pairs(tokens@);
    proof {
        lemma_absent(pairs, id@);
    }
    let mut i: usize = 0;
    while i < tokens.len() && string_lt(&tokens[i].token_id, id)
        invariant
            i <= tokens.len(),
            forall|j: int| 0 <= j < i ==> precedes(#[trigger] tokens[j].token_id@, id@),
        decreases tokens.len() - i,
    {
        i += 1;
    }
    proof {
        assert forall|j: int| i <= j < tokens.len() implies precedes(
            id@,
            #[trigger] tokens[j].token_id@,
        ) by {
            assert(pairs[i as int].0 != id@);
            assert(pairs[j].0 != id@);
            lemma_precedes_total(tokens[i as int].token_id@, id@);
            if i < j {
                lemma_precedes_transitive(id@, tokens[i as int].token_id@, tokens[j].token_id@);
            }
        }
    }
    i
}

/// Tells whether a text stands in a list of strings.
pub fn contains_text(list: &Vec<String>, text: &String) -> (r: bool)
    ensures
        r == text_set(list@).contains(text@),
{
    let mut i: usize = 0;
    while i < list.len()
        invariant
            i <= list.len(),
            forall|j: int| 0 <= j < i ==> !#[trigger] text_at(list@, j, text@),
        decreases list.len() - i,
    {
        if list[i] == *text {
            assert(text_at(list@, i as int, text@));
            return true;
        }
        i += 1;
    }
    false
}

/// Looks up the grant that `owner` gave `operator`.
pub fn find_grant(grants: &Vec<OperatorGrant>, owner: &String, operator: &String) -> (r: Option<
    usize,
>)
    requires
        distinct_keys(grant_pairs(grants@)),
    ensures
        match r {
            Some(i) => i < grants.len() && grants[i as int].owner@ == owner@
                && grants[i as int].operator@ == operator@ && as_map(
                grant_pairs(grants@),
            ).dom().contains((owner@, operator@)) && as_map(grant_pairs(grants@))[(
                owner@,
                operator@,
            )] == grants[i as int].expires,
            None => !as_map(grant_pairs(grants@)).dom().contains((owner@, operator@)),
        },
{
    let ghost pairs = grant_pairs(grants@);
    let mut i: usize = 0;
    while i < grants.len()
        invariant
            i <= grants.len(),
            distinct_keys(pairs),
            pairs == grant_pairs(grants@),
            forall|j: int| 0 <= j < i ==> !#[trigger] key_at(pairs, j, (owner@, operator@)),
        decreases grants.len() - i,
    {
        if grants[i].owner == *owner && grants[i].operator == *operator {
            proof {
                lemma_entry(pairs, i as int);
            }
            return Some(i);
        }
        i += 1;
    }
    None
}

/// Tells whether `who` holds a grant of `owner` that has not ended in
/// `block`.
pub fn has_active_grant(
    grants: &Vec<OperatorGrant>,
    owner: &String,
    who: &String,
    block: &BlockInfo,
) -> (r: bool)
    requires
        distinct_keys(grant_pairs(grants@)),
    ensures
        r == (as_map(grant_pairs(grants@)).dom().contains((owner@, who@)) && !as_map(
            grant_pairs(grants@),
        )[(owner@, who@)].expired_at(*block)),
{
    match find_grant(grants, owner, who) {
        Some(i) => !grants[i].expires.is_expired(block),
        None => false,
    }
}

impl Clone for Token {
    fn clone(&self) -> (r: Self)
        ensures
            r.token_id@ == self.token_id@,
            r.info@ == self.info@,
    {
        Token { token_id: self.token_id.clone(), info: self.info.clone() }
    }
}

impl Clone for OperatorGrant {
    fn clone(&self) -> (r: Self)
        ensures
            r.owner@ == self.owner@,
            r.operator@ == self.operator@,
            r.expires == self.expires,
    {
        OperatorGrant {
            owner: self.owner.clone(),
            operator: self.operator.clone(),
            expires: self.expires,
        }
    }
}

fn clone_tokens(tokens: &Vec<Token>) -> (r: Vec<Token>)
    ensures
        r.len() == tokens.len(),
        forall|i: int|
            0 <= i < r.len() ==> (#[trigger] r[i]).token_id@ == tokens[i].token_id@ && r[i].info@
                == tokens[i].info@,
{
    let mut out: Vec<Token> = Vec::new();
    let mut i: usize = 0;
    while i < tokens.len()
        invariant
            i <= tokens.len(),
            out.len() == i,
            forall|j: int|
                0 <= j < i ==> (#[trigger] out[j]).token_id@ == tokens[j].token_id@ && out[j].info@
                    == tokens[j].info@,
        decreases tokens.len() - i,
    {
        out.push(tokens[i].clone());
        i += 1;
    }
    out
}

fn clone_texts(list: &Vec<String>) -> (r: Vec<String>)
    ensures
        r.len() == list.len(),
        forall|i: int| 0 <= i < r.len() ==> (#[trigger] r[i])@ == list[i]@,
{
    let mut out: Vec<String> = Vec::new();
    let mut i: usize = 0;
    while i < list.len()
        invariant
            i <= list.len(),
            out.len() == i,
            forall|j: int| 0 <= j < i ==> (#[trigger] out[j])@ == list[j]@,
        decreases list.len() - i,
    {
        out.push(list[i].clone());
        i += 1;
    }
    out
}

fn clone_grants(grants: &Vec<OperatorGrant>) -> (r: Vec<OperatorGrant>)
    ensures
        grant_pairs(r@) == grant_pairs(grants@),
{
    let mut out: Vec<OperatorGrant> = Vec::new();
    let mut i: usize = 0;
    while i < grants.len()
        invariant
            i <= grants.len(),
            out.len() == i,
            forall|j: int| 0 <= j < i ==> grant_pairs(out@)[j] == grant_pairs(grants@)[j],
        decreases grants.len() - i,
    {
        out.push(grants[i].clone());
        i += 1;
    }
    assert(grant_pairs(out@) =~= grant_pairs(grants@));
    out
}

impl Clone for Cw721MetadataContract {
    /// A copy of the registry: it stands for the same mathematical value, and
    /// is well formed where the registry is.
    fn clone(&self) -> (r: Self)
        ensures
            r@ == self@,
            self.wf() ==> r.wf(),
    {
        let r = Cw721MetadataContract {
            name: self.name.clone(),
            symbol: self.symbol.clone(),
            minter: self.minter.clone(),
            creator: self.creator.clone(),
            tokens: clone_tokens(&self.tokens),
            retired: clone_texts(&self.retired),
            operators: clone_grants(&self.operators),
        };
        proof {
            assert(token_pairs(r.tokens@) =~= token_pairs(self.tokens@));
            assert forall|k: Seq<char>| text_set(r.retired@).contains(k) == text_set(
                self.retired@,
            ).contains(k) by {
                if text_set(r.retired@).contains(k) {
                    let i = choose|i: int| #[trigger] text_at(r.retired@, i, k);
                    assert(text_at(self.retired@, i, k));
                }
                if text_set(self.retired@).contains(k) {
                    let i = choose|i: int| #[trigger] text_at(self.retired@, i, k);
                    assert(text_at(r.retired@, i, k));
                }
            }
            assert(text_set(r.retired@) =~= text_set(self.retired@));
            if self.wf() {
                assert forall|i: int, j: int| 0 <= i < j < r.tokens.len() implies precedes(
                    r.tokens[i].token_id@,
                    r.tokens[j].token_id@,
                ) by {
                    assert(precedes(self.tokens[i].token_id@, self.tokens[j].token_id@));
                }
                assert forall|i: int| 0 <= i < r.tokens.len() implies (#[trigger] r.tokens[i]).info@.wf() by {
                    assert(self.tokens[i].info@.wf());
                }
                assert forall|i: int, j: int|
                    0 <= i < r.retired.len() && 0 <= j < r.tokens.len() implies (
                #[trigger] r.retired[i])@ != (#[trigger] r.tokens[j]).token_id@ by {
                    assert(self.retired[i]@ != self.tokens[j].token_id@);
                }
            }
        }
        r
    }
}

} // verus!
