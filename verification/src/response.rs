//! What an operation hands back besides the new state: attributes for the
//! log, and messages for the environment to deliver.
use vstd::prelude::*;

verus! {

/// One key with its value, for the log.
#[derive(Debug, PartialEq, Eq)]
pub struct Attribute {
    pub key: String,
    pub value: String,
}

/// An [`Attribute`] as a mathematical value.
pub struct AttributeView {
    pub key: Seq<char>,
    pub value: Seq<char>,
}

impl View for Attribute {
    type V = AttributeView;

    open spec fn view(&self) -> AttributeView {
        AttributeView { key: self.key@, value: self.value@ }
    }
}

/// The attribute with the given key and value.
pub open spec fn attr(key: Seq<char>, value: Seq<char>) -> AttributeView {
    AttributeView { key, value }
}

/// The call that tells a contract that it has been sent a token. The
/// registry only queues it: delivery is up to the environment.
#[derive(Debug, PartialEq, Eq)]
pub struct Notification {
    /// The contract to call: the token's new owner.
    pub contract_addr: String,
    /// Who sent the token.
    pub sender: String,
    /// The token that was sent.
    pub token_id: String,
    /// What the sender wants the contract to be told.
    pub payload: Vec<u8>,
    /// The body of the call, which carries the three fields above.
    pub body: Vec<u8>,
}

/// A [`Notification`] as a mathematical value.
pub struct NotificationView {
    pub contract_addr: Seq<char>,
    pub sender: Seq<char>,
    pub token_id: Seq<char>,
    pub payload: Seq<u8>,
    pub body: Seq<u8>,
}

impl View for Notification {
    type V = NotificationView;

    open spec fn view(&self) -> NotificationView {
        NotificationView {
            contract_addr: self.contract_addr@,
            sender: self.sender@,
            token_id: self.token_id@,
            payload: self.payload@,
            body: self.body@,
        }
    }
}

/// What a successful operation hands back.
#[derive(Debug, PartialEq, Eq)]
pub struct Response {
    /// The messages to deliver once the operation is through, in order.
    pub messages: Vec<Notification>,
    /// The attributes for the log, in order.
    pub attributes: Vec<Attribute>,
}

/// A [`Response`] as a mathematical value.
pub struct ResponseView {
    pub messages: Seq<NotificationView>,
    pub attributes: Seq<AttributeView>,
}

impl ResponseView {
    /// The response with no message and the given attributes.
    pub open spec fn of(attributes: Seq<AttributeView>) -> ResponseView {
        ResponseView { messages: Seq::empty(), attributes }
    }
}

impl View for Response {
    type V = ResponseView;

    open spec fn view(&self) -> ResponseView {
        ResponseView {
            messages: self.messages@.map_values(|m: Notification| m@),
            attributes: self.attributes@.map_values(|a: Attribute| a@),
        }
    }
}

impl Response {
    /// The response with no message and no attribute.
    pub fn new() -> (r: Self)
        ensures
            r@ == ResponseView::of(Seq::empty()),
    {
        let r = Response { messages: Vec::new(), attributes: Vec::new() };
        assert(r@.messages =~= Seq::empty());
        assert(r@.attributes =~= Seq::empty());
        r
    }

    /// The response with one more attribute at the end.
    pub fn add_attribute(self, key: &str, value: String) -> (r: Self)
        ensures
            r@.messages == self@.messages,
            r@.attributes == self@.attributes.push(attr(key@, value@)),
    {
        let mut r = self;
        let ghost before = r@;
        r.attributes.push(Attribute { key: key.to_owned(), value });
        assert(r@.attributes =~= before.attributes.push(attr(key@, value@)));
        r
    }

    /// The response with one more message at the end.
    pub fn add_message(self, message: Notification) -> (r: Self)
        ensures
            r@.messages == self@.messages.push(message@),
            r@.attributes == self@.attributes,
    {
        let mut r = self;
        let ghost before = r@;
        r.messages.push(message);
        assert(r@.messages =~= before.messages.push(message@));
        r
    }
}

impl Default for Response {
    /// The response with no message and no attribute.
    fn default() -> (r: Self)
        ensures
            r@ == ResponseView::of(Seq::empty()),
    {
        Response::new()
    }
}

} // verus!
