use cw721_album::ownership::Ownership;
use cw721_album::state::OperatorGrant;
use cw721_album::token::{
    has_active_approval, remove_spender, visible_approvals, Approval, Token, TokenInfo,
};
use cw721_album::validate::{grants_distinct, spenders_distinct, tokens_ascend};
use cw721_album::{BlockInfo, Cw721MetadataContract, Expiration};

fn s(text: &str) -> String {
    text.to_string()
}

fn token(id: &str, owner: &str) -> Token {
    Token {
        token_id: s(id),
        info: TokenInfo { owner: s(owner), approvals: vec![], token_uri: None, extension: None },
    }
}

fn approval(spender: &str, expires: Expiration) -> Approval {
    Approval { spender: s(spender), expires }
}

fn grant(owner: &str, operator: &str) -> OperatorGrant {
    OperatorGrant { owner: s(owner), operator: s(operator), expires: Expiration::Never }
}

fn sound() -> Cw721MetadataContract {
    let mut contract = Cw721MetadataContract::default();
    contract.minter = Ownership::new(Some(s("minter")));
    contract.creator = Ownership::new(Some(s("creator")));
    contract.tokens = vec![token("a", "x"), token("b", "y"), token("c", "x")];
    contract.tokens[1].info.approvals =
        vec![approval("p", Expiration::Never), approval("q", Expiration::AtHeight(3))];
    contract.retired = vec![s("d"), s("0")];
    contract.operators = vec![grant("x", "o"), grant("y", "o"), grant("x", "p")];
    contract
}

#[test]
fn sound_registry_is_well_formed() {
    let contract = sound();
    assert!(contract.is_well_formed());
    assert_eq!(contract.num_tokens().count, 3);
    assert_eq!(contract.clone(), contract);
}

#[test]
fn tokens_out_of_order_are_refused() {
    let mut contract = sound();
    contract.tokens.swap(0, 1);
    assert!(!contract.is_well_formed());
    let mut contract = sound();
    contract.tokens.push(token("c", "z"));
    assert!(!contract.is_well_formed());
    assert!(tokens_ascend(&vec![]));
    assert!(tokens_ascend(&vec![token("z", "x")]));
    assert!(tokens_ascend(&vec![token("a", "x"), token("b", "x")]));
    assert!(!tokens_ascend(&vec![token("a", "x"), token("a", "x")]));
    assert!(!tokens_ascend(&vec![token("a", "x"), token("c", "x"), token("b", "x")]));
}

#[test]
fn token_without_owner_is_refused() {
    let mut contract = sound();
    contract.tokens[2].info.owner = s("");
    assert!(!contract.is_well_formed());
}

#[test]
fn two_approvals_for_one_account_are_refused() {
    let mut contract = sound();
    contract.tokens[1].info.approvals.push(approval("p", Expiration::AtHeight(9)));
    assert!(!contract.is_well_formed());
    assert!(spenders_distinct(&vec![]));
    assert!(spenders_distinct(&vec![approval("p", Expiration::Never), approval("q", Expiration::Never)]));
    assert!(!spenders_distinct(&vec![
        approval("p", Expiration::Never),
        approval("q", Expiration::Never),
        approval("p", Expiration::Never),
    ]));
}

#[test]
fn burnt_id_in_use_is_refused() {
    let mut contract = sound();
    contract.retired.push(s("b"));
    assert!(!contract.is_well_formed());
}

#[test]
fn grant_given_twice_is_refused() {
    let mut contract = sound();
    contract.operators.push(grant("y", "o"));
    assert!(!contract.is_well_formed());
    assert!(grants_distinct(&vec![grant("x", "o"), grant("o", "x")]));
    assert!(!grants_distinct(&vec![grant("x", "o"), grant("x", "o")]));
}

#[test]
fn malformed_role_is_refused() {
    let mut contract = sound();
    contract.minter.owner = Some(s(""));
    assert!(!contract.is_well_formed());
    let mut contract = sound();
    contract.creator.pending_owner = Some(s(""));
    assert!(!contract.is_well_formed());
    let mut contract = sound();
    contract.creator.pending_expiry = Some(Expiration::Never);
    assert!(!contract.is_well_formed());
    contract.creator.pending_owner = Some(s("heir"));
    assert!(contract.is_well_formed());
    assert!(Ownership::new(None).is_well_formed());
}

#[test]
fn approval_lists_are_filtered_in_order() {
    let list = vec![
        approval("p", Expiration::AtHeight(5)),
        approval("q", Expiration::Never),
        approval("r", Expiration::AtHeight(50)),
        approval("t", Expiration::AtTime(1)),
    ];
    let block = BlockInfo { height: 5, time: 1 };
    assert_eq!(
        visible_approvals(&list, &block, false),
        vec![approval("q", Expiration::Never), approval("r", Expiration::AtHeight(50))]
    );
    assert_eq!(visible_approvals(&list, &block, true), list);
    assert_eq!(
        remove_spender(&list, &s("q")),
        vec![
            approval("p", Expiration::AtHeight(5)),
            approval("r", Expiration::AtHeight(50)),
            approval("t", Expiration::AtTime(1)),
        ]
    );
    assert_eq!(remove_spender(&list, &s("nobody")), list);
    assert!(has_active_approval(&list, &s("q"), &block));
    assert!(has_active_approval(&list, &s("r"), &block));
    assert!(!has_active_approval(&list, &s("p"), &block));
    assert!(!has_active_approval(&list, &s("t"), &block));
    assert!(!has_active_approval(&list, &s("nobody"), &block));
    assert!(has_active_approval(&list, &s("p"), &BlockInfo { height: 4, time: 0 }));
}
