//! What the registry has from the crates of its platform: the wire form of
//! the notification that a contract gets when a token is sent to it, and the
//! text that the log shows for the end of a grant.
use crate::expiration::Expiration;
use cosmwasm_std::{Binary, StdError, Timestamp};
use cw721::Cw721ReceiveMsg;
use vstd::prelude::*;

verus! {

/// The error type of the message encoder.
#[verifier::external_type_specification]
#[verifier::external_body]
pub struct ExStdError(StdError);

/// The JSON body of the receive message with the given sender, token and
/// payload, as `cw721::Cw721ReceiveMsg::into_binary` produces it; `None`
/// where the encoder gives an error.
pub uninterp spec fn receive_nft_json(
    sender: Seq<char>,
    token_id: Seq<char>,
    payload: Seq<u8>,
) -> Option<Seq<u8>>;

/// Calls `cw721::Cw721ReceiveMsg::into_binary` on a message made of the three
/// arguments. Nothing is proved of the encoder: the contract only gives its
/// outcome the name [`receive_nft_json`], which says that the bytes depend
/// on the three arguments alone.
#[verifier::external_body]
pub(crate) fn encode_receive_nft(sender: &String, token_id: &String, payload: &Vec<u8>) -> (r:
    Result<Vec<u8>, StdError>)
    ensures
        match r {
            Ok(body) => receive_nft_json(sender@, token_id@, payload@) == Some(body@),
            Err(_) => receive_nft_json(sender@, token_id@, payload@) is None,
        },
{
    let message = Cw721ReceiveMsg {
        sender: sender.clone(),
        token_id: token_id.clone(),
        msg: Binary(payload.clone()),
    };
    message.into_binary().map(|body| body.0)
}

/// The body of the receive message, where the encoder gives one.
pub fn receive_nft_body(sender: &String, token_id: &String, payload: &Vec<u8>) -> (r: Option<
    Vec<u8>,
>)
    ensures
        r.is_some() == receive_nft_json(sender@, token_id@, payload@).is_some(),
        r.is_some() ==> receive_nft_json(sender@, token_id@, payload@) == Some(r.unwrap()@),
{
    match encode_receive_nft(sender, token_id, payload) {
        Ok(body) => Some(body),
        Err(_) => None,
    }
}

/// The text that `cw_utils::Expiration` shows for the end of a grant.
pub uninterp spec fn expiration_text(expires: Expiration) -> Seq<char>;

/// Calls `to_string` on the `cw_utils::Expiration` that stands for
/// `expires`, which goes through that type's `Display`. Nothing is proved of
/// the text: the contract only gives it the name [`expiration_text`], which
/// says that it depends on `expires` alone.
#[verifier::external_body]
pub(crate) fn expiration_to_string(expires: Expiration) -> (r: String)
    ensures
        r@ == expiration_text(expires),
{
    let outside = match expires {
        Expiration::AtHeight(height) => cw_utils::Expiration::AtHeight(height),
        Expiration::AtTime(time) => cw_utils::Expiration::AtTime(Timestamp::from_nanos(time)),
        Expiration::Never => cw_utils::Expiration::Never {},
    };
    outside.to_string()
}

} // verus!
