use cw721_album::query::{NftInfoResponse, OwnerOfResponse};
use cw721_album::token::Approval;
use cw721_album::{
    execute, instantiate, query, BlockInfo, ContractError, Cw721MetadataContract, Env, ExecuteMsg,
    Expiration, InstantiateMsg, MessageInfo, Metadata, QueryMsg, QueryResponse, Response,
};

fn env_at(height: u64) -> Env {
    Env { block: BlockInfo { height, time: height * 1_000_000_000 } }
}

fn from(sender: &str) -> MessageInfo {
    MessageInfo { sender: sender.to_string() }
}

fn s(text: &str) -> String {
    text.to_string()
}

fn setup() -> Cw721MetadataContract {
    let mut contract = Cw721MetadataContract::default();
    let msg = InstantiateMsg { name: s("albums"), symbol: s("ALB"), minter: s("minter") };
    instantiate(&mut contract, &env_at(1), &from("deployer"), msg).unwrap();
    contract
}

fn mint(contract: &mut Cw721MetadataContract, id: &str, owner: &str) {
    contract.mint(&from("minter"), s(id), s(owner), None, None).unwrap();
}

fn owner(contract: &Cw721MetadataContract, id: &str) -> String {
    contract.owner_of(&env_at(1), s(id), true).unwrap().owner
}

#[test]
fn a_fresh_registry_is_blank_and_well_formed() {
    let mut contract = Cw721MetadataContract::default();
    assert!(contract.is_well_formed());
    assert_eq!(contract.num_tokens().count, 0);
    assert_eq!(contract.minter().minter, None);
    assert_eq!(
        contract.mint(&from("minter"), s("a"), s("alice"), None, None).unwrap_err(),
        ContractError::Unauthorized
    );
}

#[test]
fn instantiate_sets_name_symbol_and_both_roles() {
    let contract = setup();
    let info = contract.contract_info();
    assert_eq!(info.name, "albums");
    assert_eq!(info.symbol, "ALB");
    assert_eq!(contract.minter().minter, Some(s("minter")));
    assert_eq!(contract.ownership().owner, Some(s("minter")));
    assert_eq!(contract.ownership().pending_owner, None);
    assert!(contract.is_well_formed());
}

#[test]
fn instantiate_rejects_an_empty_minter() {
    let mut contract = Cw721MetadataContract::default();
    let msg = InstantiateMsg { name: s("albums"), symbol: s("ALB"), minter: s("") };
    let err = instantiate(&mut contract, &env_at(1), &from("deployer"), msg).unwrap_err();
    assert_eq!(err, ContractError::InvalidInput);
    assert_eq!(contract, Cw721MetadataContract::default());
}

#[test]
fn mint_twice_fails_and_changes_nothing() {
    let mut contract = setup();
    mint(&mut contract, "pirate", "albert");
    let after_first = contract.clone();
    let err = contract
        .mint(&from("minter"), s("pirate"), s("bob"), Some(s("uri")), Some(Metadata::default()))
        .unwrap_err();
    assert_eq!(err, ContractError::AlreadyExists);
    assert_eq!(contract, after_first);
    assert_eq!(contract.num_tokens().count, 1);
}

#[test]
fn mint_reports_what_was_done() {
    let mut contract = setup();
    let response = contract.mint(&from("minter"), s("pirate"), s("albert"), None, None).unwrap();
    assert_eq!(
        response,
        Response::new()
            .add_attribute("action", s("mint"))
            .add_attribute("minter", s("minter"))
            .add_attribute("owner", s("albert"))
            .add_attribute("token_id", s("pirate"))
    );
}

#[test]
fn mint_by_another_account_is_unauthorized() {
    let mut contract = setup();
    let before = contract.clone();
    let err = contract.mint(&from("albert"), s("pirate"), s("albert"), None, None).unwrap_err();
    assert_eq!(err, ContractError::Unauthorized);
    assert_eq!(contract, before);
}

#[test]
fn mint_for_an_empty_owner_is_invalid() {
    let mut contract = setup();
    let err = contract.mint(&from("minter"), s("pirate"), s(""), None, None).unwrap_err();
    assert_eq!(err, ContractError::InvalidInput);
    assert_eq!(contract.num_tokens().count, 0);
}

#[test]
fn minted_token_reads_back_exactly() {
    let mut contract = setup();
    let record = Metadata {
        artist: s("Albert"),
        album: s("Best Sellers"),
        artwork_url: s("https://art"),
        year: -44,
        track_name: s("One"),
        audio_track_url: s("https://audio"),
    };
    contract
        .mint(&from("minter"), s("full"), s("albert"), Some(s("https://uri")), Some(record.clone()))
        .unwrap();
    contract.mint(&from("minter"), s("blank"), s("bob"), None, Some(Metadata::default())).unwrap();
    contract.mint(&from("minter"), s("bare"), s("carol"), None, None).unwrap();

    assert_eq!(
        contract.owner_of(&env_at(1), s("full"), false).unwrap(),
        OwnerOfResponse { owner: s("albert"), approvals: vec![] }
    );
    assert_eq!(
        contract.nft_info(s("full")).unwrap(),
        NftInfoResponse { token_uri: Some(s("https://uri")), extension: Some(record) }
    );
    let blank = contract.nft_info(s("blank")).unwrap();
    let bare = contract.nft_info(s("bare")).unwrap();
    assert_eq!(blank.extension, Some(Metadata::default()));
    assert_eq!(bare.extension, None);
    assert_ne!(blank.extension, bare.extension);
    let all = contract.all_nft_info(&env_at(1), s("blank"), false).unwrap();
    assert_eq!(all.access.owner, "bob");
    assert_eq!(all.info, blank);
}

#[test]
fn default_metadata_is_all_blank() {
    let record = Metadata::default();
    assert_eq!(record.artist, "");
    assert_eq!(record.album, "");
    assert_eq!(record.artwork_url, "");
    assert_eq!(record.year, 0);
    assert_eq!(record.track_name, "");
    assert_eq!(record.audio_track_url, "");
}

#[test]
fn queries_on_an_unknown_token_are_not_found() {
    let contract = setup();
    assert_eq!(contract.nft_info(s("ghost")).unwrap_err(), ContractError::NotFound);
    assert_eq!(contract.owner_of(&env_at(1), s("ghost"), true).unwrap_err(), ContractError::NotFound);
    assert_eq!(
        contract.all_nft_info(&env_at(1), s("ghost"), true).unwrap_err(),
        ContractError::NotFound
    );
    assert_eq!(contract.approvals(&env_at(1), s("ghost"), true).unwrap_err(), ContractError::NotFound);
    assert_eq!(
        contract.approval(&env_at(1), s("ghost"), s("bob"), true).unwrap_err(),
        ContractError::NotFound
    );
}

#[test]
fn transfer_by_a_stranger_is_unauthorized() {
    let mut contract = setup();
    mint(&mut contract, "pirate", "albert");
    let before = contract.clone();
    let err = contract.transfer_nft(&env_at(2), &from("random"), s("random"), s("pirate")).unwrap_err();
    assert_eq!(err, ContractError::Unauthorized);
    assert_eq!(contract, before);
    // the minter has no say over a token either
    let err = contract.transfer_nft(&env_at(2), &from("minter"), s("minter"), s("pirate")).unwrap_err();
    assert_eq!(err, ContractError::Unauthorized);
}

#[test]
fn transfer_of_an_unknown_token_is_not_found() {
    let mut contract = setup();
    let err = contract.transfer_nft(&env_at(2), &from("albert"), s("bob"), s("ghost")).unwrap_err();
    assert_eq!(err, ContractError::NotFound);
}

#[test]
fn transfer_to_an_empty_recipient_is_invalid() {
    let mut contract = setup();
    mint(&mut contract, "pirate", "albert");
    let err = contract.transfer_nft(&env_at(2), &from("albert"), s(""), s("pirate")).unwrap_err();
    assert_eq!(err, ContractError::InvalidInput);
    assert_eq!(owner(&contract, "pirate"), "albert");
}

#[test]
fn transfer_by_the_owner_moves_the_token() {
    let mut contract = setup();
    mint(&mut contract, "pirate", "albert");
    let response = contract.transfer_nft(&env_at(2), &from("albert"), s("bob"), s("pirate")).unwrap();
    assert_eq!(
        response,
        Response::new()
            .add_attribute("action", s("transfer_nft"))
            .add_attribute("sender", s("albert"))
            .add_attribute("recipient", s("bob"))
            .add_attribute("token_id", s("pirate"))
    );
    assert_eq!(owner(&contract, "pirate"), "bob");
    assert!(contract.is_well_formed());
}

#[test]
fn transfer_clears_the_approvals() {
    let mut contract = setup();
    mint(&mut contract, "pirate", "albert");
    contract.approve(&env_at(2), &from("albert"), s("carol"), s("pirate"), None).unwrap();
    contract.approve(&env_at(2), &from("albert"), s("dave"), s("pirate"), None).unwrap();
    // an approved account moves the token
    contract.transfer_nft(&env_at(3), &from("carol"), s("bob"), s("pirate")).unwrap();
    assert_eq!(
        contract.owner_of(&env_at(3), s("pirate"), true).unwrap(),
        OwnerOfResponse { owner: s("bob"), approvals: vec![] }
    );
    for former in ["carol", "dave", "albert"] {
        let err = contract
            .transfer_nft(&env_at(4), &from(former), s(former), s("pirate"))
            .unwrap_err();
        assert_eq!(err, ContractError::Unauthorized);
    }
    assert_eq!(owner(&contract, "pirate"), "bob");
}

#[test]
fn send_clears_the_approvals() {
    let mut contract = setup();
    mint(&mut contract, "pirate", "albert");
    contract.approve(&env_at(2), &from("albert"), s("carol"), s("pirate"), None).unwrap();
    contract.send_nft(&env_at(3), &from("albert"), s("market"), s("pirate"), vec![1, 2, 3]).unwrap();
    assert_eq!(owner(&contract, "pirate"), "market");
    let err = contract.transfer_nft(&env_at(4), &from("carol"), s("carol"), s("pirate")).unwrap_err();
    assert_eq!(err, ContractError::Unauthorized);
}

#[test]
fn approve_then_revoke_gives_no_leave() {
    let mut contract = setup();
    mint(&mut contract, "pirate", "albert");
    contract.approve(&env_at(2), &from("albert"), s("carol"), s("pirate"), None).unwrap();
    let response = contract.revoke(&env_at(3), &from("albert"), s("carol"), s("pirate")).unwrap();
    assert_eq!(
        response,
        Response::new()
            .add_attribute("action", s("revoke"))
            .add_attribute("sender", s("albert"))
            .add_attribute("spender", s("carol"))
            .add_attribute("token_id", s("pirate"))
    );
    let err = contract.transfer_nft(&env_at(4), &from("carol"), s("carol"), s("pirate")).unwrap_err();
    assert_eq!(err, ContractError::Unauthorized);
    assert_eq!(owner(&contract, "pirate"), "albert");
    // lifting what is not there is no error
    contract.revoke(&env_at(5), &from("albert"), s("carol"), s("pirate")).unwrap();
    contract.revoke(&env_at(5), &from("albert"), s("nobody"), s("pirate")).unwrap();
}

#[test]
fn approve_replaces_and_keeps_order() {
    let mut contract = setup();
    mint(&mut contract, "pirate", "albert");
    let env = env_at(10);
    contract.approve(&env, &from("albert"), s("carol"), s("pirate"), None).unwrap();
    contract
        .approve(&env, &from("albert"), s("dave"), s("pirate"), Some(Expiration::AtHeight(50)))
        .unwrap();
    let response = contract
        .approve(&env, &from("albert"), s("carol"), s("pirate"), Some(Expiration::AtTime(u64::MAX)))
        .unwrap();
    assert_eq!(
        response,
        Response::new()
            .add_attribute("action", s("approve"))
            .add_attribute("sender", s("albert"))
            .add_attribute("spender", s("carol"))
            .add_attribute("token_id", s("pirate"))
    );
    assert_eq!(
        contract.approvals(&env, s("pirate"), true).unwrap().approvals,
        vec![
            Approval { spender: s("dave"), expires: Expiration::AtHeight(50) },
            Approval { spender: s("carol"), expires: Expiration::AtTime(u64::MAX) },
        ]
    );
    assert!(contract.is_well_formed());
}

#[test]
fn approve_needs_the_owner_or_an_operator() {
    let mut contract = setup();
    mint(&mut contract, "pirate", "albert");
    let env = env_at(10);
    assert_eq!(
        contract.approve(&env, &from("random"), s("carol"), s("pirate"), None).unwrap_err(),
        ContractError::Unauthorized
    );
    assert_eq!(
        contract.approve(&env, &from("albert"), s("carol"), s("ghost"), None).unwrap_err(),
        ContractError::NotFound
    );
    assert_eq!(
        contract.approve(&env, &from("albert"), s(""), s("pirate"), None).unwrap_err(),
        ContractError::InvalidInput
    );
    // an approved account may move the token but not approve others
    contract.approve(&env, &from("albert"), s("carol"), s("pirate"), None).unwrap();
    assert_eq!(
        contract.approve(&env, &from("carol"), s("dave"), s("pirate"), None).unwrap_err(),
        ContractError::Unauthorized
    );
    assert_eq!(
        contract.revoke(&env, &from("carol"), s("carol"), s("pirate")).unwrap_err(),
        ContractError::Unauthorized
    );
    // an operator may
    contract.approve_all(&env, &from("albert"), s("olga"), None).unwrap();
    contract.approve(&env, &from("olga"), s("dave"), s("pirate"), None).unwrap();
    contract.transfer_nft(&env, &from("dave"), s("dave"), s("pirate")).unwrap();
    assert_eq!(owner(&contract, "pirate"), "dave");
}

#[test]
fn approval_that_has_ended_already_cannot_be_set() {
    let mut contract = setup();
    mint(&mut contract, "pirate", "albert");
    let before = contract.clone();
    let env = env_at(10);
    for expires in [Expiration::AtHeight(10), Expiration::AtHeight(3), Expiration::AtTime(10_000_000_000)] {
        let err = contract
            .approve(&env, &from("albert"), s("carol"), s("pirate"), Some(expires))
            .unwrap_err();
        assert_eq!(err, ContractError::Expired);
        let err = contract.approve_all(&env, &from("albert"), s("olga"), Some(expires)).unwrap_err();
        assert_eq!(err, ContractError::Expired);
    }
    assert_eq!(contract, before);
    contract
        .approve(&env, &from("albert"), s("carol"), s("pirate"), Some(Expiration::AtHeight(11)))
        .unwrap();
}

#[test]
fn approval_in_the_past_counts_as_none() {
    let mut with_approval = setup();
    mint(&mut with_approval, "pirate", "albert");
    let without_approval = with_approval.clone();
    with_approval
        .approve(&env_at(10), &from("albert"), s("carol"), s("pirate"), Some(Expiration::AtHeight(20)))
        .unwrap();

    // while it is in force the approval gives leave
    let mut early = with_approval.clone();
    early.transfer_nft(&env_at(19), &from("carol"), s("carol"), s("pirate")).unwrap();

    // once its height is reached it gives what no approval gives
    for height in [20, 21, 1_000] {
        let mut a = with_approval.clone();
        let mut b = without_approval.clone();
        let ra = a.transfer_nft(&env_at(height), &from("carol"), s("carol"), s("pirate"));
        let rb = b.transfer_nft(&env_at(height), &from("carol"), s("carol"), s("pirate"));
        assert_eq!(ra, rb);
        assert_eq!(ra.unwrap_err(), ContractError::Unauthorized);
        let ra = a.burn(&env_at(height), &from("carol"), s("pirate"));
        let rb = b.burn(&env_at(height), &from("carol"), s("pirate"));
        assert_eq!(ra, rb);
        assert_eq!(a, with_approval);
    }
    // it stays on the list until the token moves
    assert_eq!(with_approval.approvals(&env_at(30), s("pirate"), true).unwrap().approvals.len(), 1);
    assert_eq!(with_approval.approvals(&env_at(30), s("pirate"), false).unwrap().approvals.len(), 0);
    assert_eq!(with_approval.owner_of(&env_at(30), s("pirate"), false).unwrap().approvals, vec![]);
}

#[test]
fn expiration_ends_when_its_point_is_reached() {
    let block = BlockInfo { height: 100, time: 5_000 };
    assert!(!Expiration::AtHeight(101).is_expired(&block));
    assert!(Expiration::AtHeight(100).is_expired(&block));
    assert!(Expiration::AtHeight(99).is_expired(&block));
    assert!(!Expiration::AtTime(5_001).is_expired(&block));
    assert!(Expiration::AtTime(5_000).is_expired(&block));
    assert!(Expiration::AtTime(0).is_expired(&block));
    assert!(!Expiration::Never.is_expired(&block));
    assert!(!Expiration::Never.is_expired(&BlockInfo { height: u64::MAX, time: u64::MAX }));
    assert_eq!(Expiration::default(), Expiration::Never);
}

#[test]
fn approval_query_knows_the_owner_and_the_list() {
    let mut contract = setup();
    mint(&mut contract, "pirate", "albert");
    contract
        .approve(&env_at(10), &from("albert"), s("carol"), s("pirate"), Some(Expiration::AtHeight(20)))
        .unwrap();
    let owner_has = contract.approval(&env_at(10), s("pirate"), s("albert"), false).unwrap();
    assert_eq!(owner_has.approval, Approval { spender: s("albert"), expires: Expiration::Never });
    let carol_has = contract.approval(&env_at(10), s("pirate"), s("carol"), false).unwrap();
    assert_eq!(carol_has.approval, Approval { spender: s("carol"), expires: Expiration::AtHeight(20) });
    assert_eq!(
        contract.approval(&env_at(20), s("pirate"), s("carol"), false).unwrap_err(),
        ContractError::NotFound
    );
    assert_eq!(
        contract.approval(&env_at(20), s("pirate"), s("carol"), true).unwrap().approval.expires,
        Expiration::AtHeight(20)
    );
    assert_eq!(
        contract.approval(&env_at(10), s("pirate"), s("dave"), true).unwrap_err(),
        ContractError::NotFound
    );
}

#[test]
fn operator_acts_on_all_tokens_of_the_owner() {
    let mut contract = setup();
    mint(&mut contract, "a", "albert");
    mint(&mut contract, "b", "albert");
    mint(&mut contract, "c", "bob");
    let response = contract
        .approve_all(&env_at(10), &from("albert"), s("olga"), Some(Expiration::AtHeight(20)))
        .unwrap();
    assert_eq!(
        response,
        Response::new()
            .add_attribute("action", s("approve_all"))
            .add_attribute("sender", s("albert"))
            .add_attribute("operator", s("olga"))
    );
    assert_eq!(
        contract.operator(&env_at(10), s("albert"), s("olga"), false).unwrap().approval,
        Approval { spender: s("olga"), expires: Expiration::AtHeight(20) }
    );
    contract.transfer_nft(&env_at(11), &from("olga"), s("olga"), s("a")).unwrap();
    // not on the tokens of others
    assert_eq!(
        contract.transfer_nft(&env_at(11), &from("olga"), s("olga"), s("c")).unwrap_err(),
        ContractError::Unauthorized
    );
    // and not once the grant has ended
    assert_eq!(
        contract.transfer_nft(&env_at(20), &from("olga"), s("olga"), s("b")).unwrap_err(),
        ContractError::Unauthorized
    );
    assert_eq!(
        contract.operator(&env_at(20), s("albert"), s("olga"), false).unwrap_err(),
        ContractError::NotFound
    );
    assert!(contract.operator(&env_at(20), s("albert"), s("olga"), true).is_ok());
    // a new grant replaces the old one
    contract.approve_all(&env_at(20), &from("albert"), s("olga"), None).unwrap();
    assert_eq!(contract.operators.len(), 1);
    contract.burn(&env_at(21), &from("olga"), s("b")).unwrap();
    assert!(contract.is_well_formed());
}

#[test]
fn revoke_all_takes_the_grant_back() {
    let mut contract = setup();
    mint(&mut contract, "a", "albert");
    contract.approve_all(&env_at(10), &from("albert"), s("olga"), None).unwrap();
    contract.approve_all(&env_at(10), &from("bob"), s("olga"), None).unwrap();
    let response = contract.revoke_all(&env_at(11), &from("albert"), s("olga")).unwrap();
    assert_eq!(
        response,
        Response::new()
            .add_attribute("action", s("revoke_all"))
            .add_attribute("sender", s("albert"))
            .add_attribute("operator", s("olga"))
    );
    assert_eq!(
        contract.transfer_nft(&env_at(12), &from("olga"), s("olga"), s("a")).unwrap_err(),
        ContractError::Unauthorized
    );
    assert!(contract.operator(&env_at(12), s("bob"), s("olga"), false).is_ok());
    assert_eq!(
        contract.operator(&env_at(12), s("albert"), s("olga"), true).unwrap_err(),
        ContractError::NotFound
    );
    // taking back what is not there is no error
    let before = contract.clone();
    contract.revoke_all(&env_at(12), &from("albert"), s("olga")).unwrap();
    assert_eq!(contract, before);
    assert_eq!(
        contract.revoke_all(&env_at(12), &from("albert"), s("")).unwrap_err(),
        ContractError::InvalidInput
    );
    assert_eq!(
        contract.approve_all(&env_at(12), &from("albert"), s(""), None).unwrap_err(),
        ContractError::InvalidInput
    );
    assert_eq!(
        contract.operator(&env_at(12), s(""), s("olga"), true).unwrap_err(),
        ContractError::InvalidInput
    );
}

#[test]
fn burn_removes_the_token_for_good() {
    let mut contract = setup();
    mint(&mut contract, "a", "albert");
    mint(&mut contract, "b", "albert");
    contract.approve(&env_at(2), &from("albert"), s("carol"), s("a"), None).unwrap();
    assert_eq!(contract.num_tokens().count, 2);
    let response = contract.burn(&env_at(3), &from("albert"), s("a")).unwrap();
    assert_eq!(
        response,
        Response::new()
            .add_attribute("action", s("burn"))
            .add_attribute("sender", s("albert"))
            .add_attribute("token_id", s("a"))
    );
    assert_eq!(contract.num_tokens().count, 1);
    assert_eq!(contract.owner_of(&env_at(3), s("a"), true).unwrap_err(), ContractError::NotFound);
    assert_eq!(contract.nft_info(s("a")).unwrap_err(), ContractError::NotFound);
    assert_eq!(
        contract.transfer_nft(&env_at(4), &from("carol"), s("carol"), s("a")).unwrap_err(),
        ContractError::NotFound
    );
    assert_eq!(contract.burn(&env_at(4), &from("albert"), s("a")).unwrap_err(), ContractError::NotFound);
    // the ID is not given out again
    let before = contract.clone();
    assert_eq!(
        contract.mint(&from("minter"), s("a"), s("albert"), None, None).unwrap_err(),
        ContractError::AlreadyExists
    );
    assert_eq!(contract, before);
    assert_eq!(owner(&contract, "b"), "albert");
    assert!(contract.is_well_formed());
}

#[test]
fn burn_by_a_stranger_is_unauthorized() {
    let mut contract = setup();
    mint(&mut contract, "a", "albert");
    let before = contract.clone();
    assert_eq!(
        contract.burn(&env_at(3), &from("random"), s("a")).unwrap_err(),
        ContractError::Unauthorized
    );
    assert_eq!(contract, before);
    contract.approve(&env_at(3), &from("albert"), s("carol"), s("a"), None).unwrap();
    contract.burn(&env_at(3), &from("carol"), s("a")).unwrap();
    assert_eq!(contract.num_tokens().count, 0);
}

#[test]
fn execute_and_query_route_each_message() {
    let mut contract = setup();
    let env = env_at(5);
    let minted = execute(
        &mut contract,
        &env,
        &from("minter"),
        ExecuteMsg::Mint { token_id: s("a"), owner: s("albert"), token_uri: None, extension: None },
    );
    assert!(minted.is_ok());
    execute(
        &mut contract,
        &env,
        &from("albert"),
        ExecuteMsg::Approve { spender: s("carol"), token_id: s("a"), expires: None },
    )
    .unwrap();
    execute(
        &mut contract,
        &env,
        &from("albert"),
        ExecuteMsg::ApproveAll { operator: s("olga"), expires: None },
    )
    .unwrap();
    match query(&contract, &env, QueryMsg::OwnerOf { token_id: s("a"), include_expired: None }) {
        Ok(QueryResponse::OwnerOf(access)) => {
            assert_eq!(access.owner, "albert");
            assert_eq!(access.approvals.len(), 1);
        }
        other => panic!("{other:?}"),
    }
    match query(&contract, &env, QueryMsg::NumTokens) {
        Ok(QueryResponse::NumTokens(n)) => assert_eq!(n.count, 1),
        other => panic!("{other:?}"),
    }
    match query(&contract, &env, QueryMsg::ContractInfo) {
        Ok(QueryResponse::ContractInfo(info)) => assert_eq!(info.name, "albums"),
        other => panic!("{other:?}"),
    }
    match query(&contract, &env, QueryMsg::Minter) {
        Ok(QueryResponse::Minter(m)) => assert_eq!(m.minter, Some(s("minter"))),
        other => panic!("{other:?}"),
    }
    match query(&contract, &env, QueryMsg::NftInfo { token_id: s("a") }) {
        Ok(QueryResponse::NftInfo(info)) => assert_eq!(info.token_uri, None),
        other => panic!("{other:?}"),
    }
    match query(&contract, &env, QueryMsg::AllNftInfo { token_id: s("a"), include_expired: Some(true) }) {
        Ok(QueryResponse::AllNftInfo(all)) => assert_eq!(all.access.owner, "albert"),
        other => panic!("{other:?}"),
    }
    match query(
        &contract,
        &env,
        QueryMsg::Approval { token_id: s("a"), spender: s("carol"), include_expired: None },
    ) {
        Ok(QueryResponse::Approval(found)) => assert_eq!(found.approval.spender, "carol"),
        other => panic!("{other:?}"),
    }
    match query(&contract, &env, QueryMsg::Approvals { token_id: s("a"), include_expired: None }) {
        Ok(QueryResponse::Approvals(list)) => assert_eq!(list.approvals.len(), 1),
        other => panic!("{other:?}"),
    }
    match query(
        &contract,
        &env,
        QueryMsg::Operator { owner: s("albert"), operator: s("olga"), include_expired: None },
    ) {
        Ok(QueryResponse::Operator(found)) => assert_eq!(found.approval.spender, "olga"),
        other => panic!("{other:?}"),
    }
    match query(&contract, &env, QueryMsg::Tokens { owner: s("albert"), start_after: None, limit: None }) {
        Ok(QueryResponse::Tokens(page)) => assert_eq!(page.tokens, vec![s("a")]),
        other => panic!("{other:?}"),
    }
    match query(&contract, &env, QueryMsg::AllTokens { start_after: None, limit: None }) {
        Ok(QueryResponse::Tokens(page)) => assert_eq!(page.tokens, vec![s("a")]),
        other => panic!("{other:?}"),
    }
    match query(&contract, &env, QueryMsg::Ownership) {
        Ok(QueryResponse::Ownership(role)) => assert_eq!(role.owner, Some(s("minter"))),
        other => panic!("{other:?}"),
    }
    match query(&contract, &env, QueryMsg::MinterOwnership) {
        Ok(QueryResponse::Ownership(role)) => assert_eq!(role.owner, Some(s("minter"))),
        other => panic!("{other:?}"),
    }
    assert_eq!(
        query(&contract, &env, QueryMsg::NftInfo { token_id: s("ghost") }),
        Err(ContractError::NotFound)
    );
    for msg in [
        ExecuteMsg::Revoke { spender: s("carol"), token_id: s("a") },
        ExecuteMsg::RevokeAll { operator: s("olga") },
        ExecuteMsg::TransferNft { recipient: s("bob"), token_id: s("a") },
    ] {
        execute(&mut contract, &env, &from("albert"), msg).unwrap();
    }
    execute(&mut contract, &env, &from("bob"), ExecuteMsg::Burn { token_id: s("a") }).unwrap();
    assert_eq!(contract.num_tokens().count, 0);
    let before = contract.clone();
    assert_eq!(execute(&mut contract, &env, &from("anyone"), ExecuteMsg::Extension), Ok(Response::new()));
    assert_eq!(contract, before);
}
