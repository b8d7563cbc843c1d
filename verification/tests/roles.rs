use cw721_album::ownership::Ownership;
use cw721_album::{
    Action, BlockInfo, ContractError, Cw721MetadataContract, Env, ExecuteMsg, Expiration,
    InstantiateMsg, MessageInfo, Response,
};

fn env_at(height: u64) -> Env {
    Env { block: BlockInfo { height, time: 1_571_797_419_879_305_533 } }
}

fn from(sender: &str) -> MessageInfo {
    MessageInfo { sender: sender.to_string() }
}

fn s(text: &str) -> String {
    text.to_string()
}

fn setup() -> Cw721MetadataContract {
    let mut contract = Cw721MetadataContract::default();
    let msg = InstantiateMsg { name: s("albums"), symbol: s("ALB"), minter: s("creator") };
    contract.instantiate(&env_at(1), &from("creator"), msg).unwrap();
    contract
}

fn propose(new_owner: &str, expiry: Option<Expiration>) -> Action {
    Action::TransferOwnership { new_owner: s(new_owner), expiry }
}

fn role_response(owner: &str, pending: &str, expiry: &str) -> Response {
    Response::new()
        .add_attribute("owner", s(owner))
        .add_attribute("pending_owner", s(pending))
        .add_attribute("pending_expiry", s(expiry))
}

#[test]
fn minter_passes_in_two_steps() {
    let mut contract = setup();
    let response = contract
        .update_minter_ownership(&env_at(2), &from("creator"), propose("newbie", None))
        .unwrap();
    assert_eq!(response, role_response("creator", "newbie", "none"));
    // until it is accepted the minter stays
    assert_eq!(contract.minter().minter, Some(s("creator")));
    contract.mint(&from("creator"), s("a"), s("albert"), None, None).unwrap();
    assert_eq!(
        contract.mint(&from("newbie"), s("b"), s("albert"), None, None).unwrap_err(),
        ContractError::Unauthorized
    );

    let before = contract.clone();
    for other in ["random", "creator", ""] {
        let err = contract
            .update_minter_ownership(&env_at(3), &from(other), Action::AcceptOwnership)
            .unwrap_err();
        assert_eq!(err, ContractError::Unauthorized);
    }
    assert_eq!(contract, before);

    let response = contract
        .update_minter_ownership(&env_at(3), &from("newbie"), Action::AcceptOwnership)
        .unwrap();
    assert_eq!(response, role_response("newbie", "none", "none"));
    assert_eq!(contract.minter().minter, Some(s("newbie")));
    assert_eq!(
        contract.mint(&from("creator"), s("b"), s("albert"), None, None).unwrap_err(),
        ContractError::Unauthorized
    );
    contract.mint(&from("newbie"), s("b"), s("albert"), None, None).unwrap();
    // the contract still has its owner, who directs the role
    assert_eq!(contract.ownership().owner, Some(s("creator")));
    assert!(contract.is_well_formed());
}

#[test]
fn minter_change_needs_the_owner() {
    let mut contract = setup();
    contract.update_minter_ownership(&env_at(2), &from("creator"), propose("newbie", None)).unwrap();
    contract.update_minter_ownership(&env_at(3), &from("newbie"), Action::AcceptOwnership).unwrap();
    let before = contract.clone();
    // the minter is not the owner and cannot pass the role on
    for action in [propose("friend", None), Action::RenounceOwnership] {
        let err = contract.update_minter_ownership(&env_at(4), &from("newbie"), action).unwrap_err();
        assert_eq!(err, ContractError::Unauthorized);
    }
    assert_eq!(
        contract
            .update_minter_ownership(&env_at(4), &from("creator"), propose("", None))
            .unwrap_err(),
        ContractError::InvalidInput
    );
    assert_eq!(
        contract
            .update_minter_ownership(&env_at(4), &from("creator"), Action::AcceptOwnership)
            .unwrap_err(),
        ContractError::NotFound
    );
    assert_eq!(contract, before);
}

#[test]
fn proposal_can_only_be_accepted_in_time() {
    let mut contract = setup();
    let response = contract
        .update_minter_ownership(
            &env_at(2),
            &from("creator"),
            propose("newbie", Some(Expiration::AtHeight(10))),
        )
        .unwrap();
    assert_eq!(response, role_response("creator", "newbie", "expiration height: 10"));
    assert_eq!(
        contract.minter_ownership(),
        Ownership {
            owner: Some(s("creator")),
            pending_owner: Some(s("newbie")),
            pending_expiry: Some(Expiration::AtHeight(10)),
        }
    );
    let before = contract.clone();
    for height in [10, 11] {
        let err = contract
            .update_minter_ownership(&env_at(height), &from("newbie"), Action::AcceptOwnership)
            .unwrap_err();
        assert_eq!(err, ContractError::Expired);
    }
    assert_eq!(contract, before);
    // a new proposal overwrites the old one
    contract
        .update_minter_ownership(&env_at(11), &from("creator"), propose("friend", None))
        .unwrap();
    assert_eq!(
        contract
            .update_minter_ownership(&env_at(12), &from("newbie"), Action::AcceptOwnership)
            .unwrap_err(),
        ContractError::Unauthorized
    );
    contract.update_minter_ownership(&env_at(12), &from("friend"), Action::AcceptOwnership).unwrap();
    assert_eq!(contract.minter().minter, Some(s("friend")));
}

#[test]
fn deadline_is_shown_as_the_platform_shows_it() {
    let mut contract = setup();
    let cases = [
        (Expiration::AtHeight(0), "expiration height: 0"),
        (Expiration::AtHeight(u64::MAX), "expiration height: 18446744073709551615"),
        (Expiration::AtTime(1_571_797_419_879_305_533), "expiration time: 1571797419.879305533"),
        (Expiration::AtTime(5), "expiration time: 0.000000005"),
        (Expiration::Never, "expiration: never"),
    ];
    for (expiry, text) in cases {
        let response = contract
            .update_creator_ownership(&env_at(2), &from("creator"), propose("newbie", Some(expiry)))
            .unwrap();
        assert_eq!(response, role_response("creator", "newbie", text));
    }
    let role = contract.ownership();
    assert_eq!(role.attributes_with(Some(s("soon"))), role_response("creator", "newbie", "soon"));
    assert_eq!(role.attributes_with(None), role_response("creator", "newbie", "none"));
}

#[test]
fn renounced_minter_role_stays_vacant() {
    let mut contract = setup();
    contract.update_minter_ownership(&env_at(2), &from("creator"), propose("newbie", None)).unwrap();
    let response = contract
        .update_minter_ownership(&env_at(3), &from("creator"), Action::RenounceOwnership)
        .unwrap();
    assert_eq!(response, role_response("none", "none", "none"));
    assert_eq!(contract.minter().minter, None);
    let before = contract.clone();
    for who in ["creator", "newbie"] {
        assert_eq!(
            contract.mint(&from(who), s("a"), s("albert"), None, None).unwrap_err(),
            ContractError::Unauthorized
        );
        assert_eq!(
            contract.update_minter_ownership(&env_at(4), &from(who), propose(who, None)).unwrap_err(),
            ContractError::Unauthorized
        );
        assert_eq!(
            contract
                .update_minter_ownership(&env_at(4), &from(who), Action::RenounceOwnership)
                .unwrap_err(),
            ContractError::Unauthorized
        );
    }
    assert_eq!(
        contract
            .update_minter_ownership(&env_at(4), &from("newbie"), Action::AcceptOwnership)
            .unwrap_err(),
        ContractError::NotFound
    );
    assert_eq!(contract, before);
}

#[test]
fn contract_ownership_passes_in_two_steps() {
    let mut contract = setup();
    let env = env_at(2);
    assert_eq!(
        contract.update_creator_ownership(&env, &from("random"), propose("random", None)).unwrap_err(),
        ContractError::Unauthorized
    );
    contract.execute(&env, &from("creator"), ExecuteMsg::UpdateCreatorOwnership(propose("heir", None))).unwrap();
    assert_eq!(contract.ownership().owner, Some(s("creator")));
    assert_eq!(
        contract.update_creator_ownership(&env, &from("random"), Action::AcceptOwnership).unwrap_err(),
        ContractError::Unauthorized
    );
    contract.execute(&env, &from("heir"), ExecuteMsg::UpdateCreatorOwnership(Action::AcceptOwnership)).unwrap();
    assert_eq!(contract.ownership(), Ownership { owner: Some(s("heir")), pending_owner: None, pending_expiry: None });
    // the minter role did not move with it
    assert_eq!(contract.minter().minter, Some(s("creator")));
    // the new owner directs the minter role, the old one no more
    assert_eq!(
        contract.update_minter_ownership(&env, &from("creator"), propose("friend", None)).unwrap_err(),
        ContractError::Unauthorized
    );
    contract.execute(&env, &from("heir"), ExecuteMsg::UpdateMinterOwnership(propose("friend", None))).unwrap();
    contract.execute(&env, &from("friend"), ExecuteMsg::UpdateMinterOwnership(Action::AcceptOwnership)).unwrap();
    assert_eq!(contract.minter().minter, Some(s("friend")));
}

#[test]
fn renounced_contract_ownership_freezes_the_minter() {
    let mut contract = setup();
    let env = env_at(2);
    contract.update_creator_ownership(&env, &from("creator"), Action::RenounceOwnership).unwrap();
    assert_eq!(contract.ownership().owner, None);
    for action in [propose("friend", None), Action::RenounceOwnership] {
        assert_eq!(
            contract.update_minter_ownership(&env, &from("creator"), action).unwrap_err(),
            ContractError::Unauthorized
        );
    }
    assert_eq!(
        contract.update_creator_ownership(&env, &from("creator"), propose("creator", None)).unwrap_err(),
        ContractError::Unauthorized
    );
    // minting goes on
    contract.mint(&from("creator"), s("a"), s("albert"), None, None).unwrap();
    assert!(contract.is_well_formed());
}
