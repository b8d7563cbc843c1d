use cw721_album::wire::receive_nft_body;
use cw721_album::{
    BlockInfo, ContractError, Cw721MetadataContract, Env, InstantiateMsg, MessageInfo,
    Notification, Response,
};

fn env() -> Env {
    Env { block: BlockInfo { height: 7, time: 7_000 } }
}

fn from(sender: &str) -> MessageInfo {
    MessageInfo { sender: sender.to_string() }
}

fn s(text: &str) -> String {
    text.to_string()
}

fn setup() -> Cw721MetadataContract {
    let mut contract = Cw721MetadataContract::default();
    let msg = InstantiateMsg { name: s("albums"), symbol: s("ALB"), minter: s("minter") };
    contract.instantiate(&env(), &from("minter"), msg).unwrap();
    contract.mint(&from("minter"), s("pirate"), s("albert"), None, None).unwrap();
    contract
}

#[test]
fn receive_message_is_the_platform_json() {
    let body = receive_nft_body(&s("albert"), &s("pirate"), &vec![1, 2, 3]).unwrap();
    assert_eq!(
        String::from_utf8(body).unwrap(),
        "{\"receive_nft\":{\"sender\":\"albert\",\"token_id\":\"pirate\",\"msg\":\"AQID\"}}"
    );
    let body = receive_nft_body(&s("a\"b"), &s(""), &vec![]).unwrap();
    assert_eq!(
        String::from_utf8(body).unwrap(),
        "{\"receive_nft\":{\"sender\":\"a\\\"b\",\"token_id\":\"\",\"msg\":\"\"}}"
    );
}

#[test]
fn send_queues_one_message_for_the_contract() {
    let mut contract = setup();
    let payload = b"{\"bid\":5}".to_vec();
    let response =
        contract.send_nft(&env(), &from("albert"), s("market"), s("pirate"), payload.clone()).unwrap();
    assert_eq!(response.messages.len(), 1);
    assert_eq!(
        response.messages[0],
        Notification {
            contract_addr: s("market"),
            sender: s("albert"),
            token_id: s("pirate"),
            payload,
            body: b"{\"receive_nft\":{\"sender\":\"albert\",\"token_id\":\"pirate\",\"msg\":\"eyJiaWQiOjV9\"}}"
                .to_vec(),
        }
    );
    assert_eq!(
        response.attributes,
        Response::new()
            .add_attribute("action", s("send_nft"))
            .add_attribute("sender", s("albert"))
            .add_attribute("recipient", s("market"))
            .add_attribute("token_id", s("pirate"))
            .attributes
    );
    assert_eq!(contract.owner_of(&env(), s("pirate"), true).unwrap().owner, "market");
}

#[test]
fn send_is_rejected_as_a_transfer_is() {
    let mut contract = setup();
    let before = contract.clone();
    assert_eq!(
        contract.send_nft(&env(), &from("random"), s("market"), s("pirate"), vec![]).unwrap_err(),
        ContractError::Unauthorized
    );
    assert_eq!(
        contract.send_nft(&env(), &from("albert"), s("market"), s("ghost"), vec![]).unwrap_err(),
        ContractError::NotFound
    );
    assert_eq!(
        contract.send_nft(&env(), &from("albert"), s(""), s("pirate"), vec![]).unwrap_err(),
        ContractError::InvalidInput
    );
    assert_eq!(contract, before);
}

#[test]
fn send_without_a_body_is_a_serialization_error() {
    let mut contract = setup();
    let before = contract.clone();
    let err = contract
        .send_nft_encoded(&env(), &from("albert"), s("market"), s("pirate"), vec![9], None)
        .unwrap_err();
    assert_eq!(err, ContractError::Serialization);
    assert_eq!(contract, before);
    // who may not send learns that first
    let err = contract
        .send_nft_encoded(&env(), &from("random"), s("market"), s("pirate"), vec![9], None)
        .unwrap_err();
    assert_eq!(err, ContractError::Unauthorized);
    let response = contract
        .send_nft_encoded(&env(), &from("albert"), s("market"), s("pirate"), vec![9], Some(vec![7, 7]))
        .unwrap();
    assert_eq!(response.messages[0].body, vec![7, 7]);
    assert_eq!(response.messages[0].payload, vec![9]);
}
