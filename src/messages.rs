use vstd::prelude::*;

verus! {

#[verifier::external_type_specification]
#[verifier::external_body]
pub struct ExValue(serde_json::Value);

/// One frame of the gateway protocol, in either direction.
#[derive(Debug)]
pub struct WebSocketMessage {
    pub ok: Option<bool>,
    pub id: Option<usize>,
    /// What kind of message this is, with the fields of that kind.
    pub kind: WebSocketMessageInner,
}

/// The kinds of message and their fields.
#[derive(Debug)]
pub enum WebSocketMessageInner {
    Hello { motd: serde_json::Value },
    Keepalive { server_time: String },
    Response { responding_to: String, data: WebSocketMessageResponse },
    Work,
    MakeTransaction {
        /// The secret key of the sending address.
        private_key: String,
        /// The recipient of the transaction.
        to: String,
        /// The amount to send to the recipient.
        amount: u32,
        /// Optional metadata to include in the transaction.
        metadata: Option<String>,
    },
    GetValidSubscriptionLevels,
    Address {
        address: String,
        /// When set, also count the names the address owns.
        fetch_names: Option<bool>,
    },
    Me,
    GetSubscriptionLevel,
    Logout,
    Login { private_key: String },
    Subscribe { event: String },
    Unsubscribe { event: String },
}

/// The payload of a response, by the kind of request it answers.
#[derive(Debug)]
pub enum WebSocketMessageResponse {
    Work {
        /// The current work (difficulty).
        work: usize,
    },
    MakeTransaction { transaction: serde_json::Value },
    GetValidSubscriptionLevels {
        /// Every topic a session can subscribe to.
        valid_subscription_levels: Vec<String>,
    },
    Address { address: serde_json::Value },
    Me {
        /// Whether the current user is a guest.
        is_guest: bool,
        address: Option<serde_json::Value>,
    },
    GetSubscriptionLevel { subscription_level: Vec<String> },
    Logout {
        /// Whether the current user is a guest.
        is_guest: bool,
    },
    Login {
        /// Whether the current user is a guest.
        is_guest: bool,
        address: serde_json::Value,
    },
    Subscribe { subscription_level: Vec<String> },
    Unsubscribe { subscription_level: Vec<String> },
    /// A request that failed, with what went wrong.
    Error { error: String },
}

/// The protocol's name of a kind of message.
pub open spec fn kind_name(k: WebSocketMessageInner) -> Seq<char> {
    match k {
        WebSocketMessageInner::Hello { .. } => "hello"@,
        WebSocketMessageInner::Keepalive { .. } => "keepalive"@,
        WebSocketMessageInner::Response { .. } => "response"@,
        WebSocketMessageInner::Work => "work"@,
        WebSocketMessageInner::MakeTransaction { .. } => "make_transaction"@,
        WebSocketMessageInner::GetValidSubscriptionLevels => "get_valid_subscription_levels"@,
        WebSocketMessageInner::Address { .. } => "address"@,
        WebSocketMessageInner::Me => "me"@,
        WebSocketMessageInner::GetSubscriptionLevel => "get_subscription_level"@,
        WebSocketMessageInner::Logout => "logout"@,
        WebSocketMessageInner::Login { .. } => "login"@,
        WebSocketMessageInner::Subscribe { .. } => "subscribe"@,
        WebSocketMessageInner::Unsubscribe { .. } => "unsubscribe"@,
    }
}

impl WebSocketMessageInner {
    /// The protocol's name of this kind of message.
    pub fn kind_text(&self) -> (r: String)
        ensures
            r@ == kind_name(*self),
    {
        match self {
            WebSocketMessageInner::Hello { .. } => "hello".to_owned(),
            WebSocketMessageInner::Keepalive { .. } => "keepalive".to_owned(),
            WebSocketMessageInner::Response { .. } => "response".to_owned(),
            WebSocketMessageInner::Work => "work".to_owned(),
            WebSocketMessageInner::MakeTransaction { .. } => "make_transaction".to_owned(),
            WebSocketMessageInner::GetValidSubscriptionLevels => {
                "get_valid_subscription_levels".to_owned()
            },
            WebSocketMessageInner::Address { .. } => "address".to_owned(),
            WebSocketMessageInner::Me => "me".to_owned(),
            WebSocketMessageInner::GetSubscriptionLevel => "get_subscription_level".to_owned(),
            WebSocketMessageInner::Logout => "logout".to_owned(),
            WebSocketMessageInner::Login { .. } => "login".to_owned(),
            WebSocketMessageInner::Subscribe { .. } => "subscribe".to_owned(),
            WebSocketMessageInner::Unsubscribe { .. } => "unsubscribe".to_owned(),
        }
    }
}

/// The texts held by a list of strings.
pub open spec fn texts(v: Vec<String>) -> Seq<Seq<char>> {
    v@.map_values(|s: String| s@)
}

} // verus!
