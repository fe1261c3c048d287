use vstd::prelude::*;
use crate::types::{str_equal, ActionError, ErrorKind};

verus! {

/// What the logic reads of the request that carried an action.
pub struct RequestContext {
    pub connection_id: Option<String>,
    pub domain_name: Option<String>,
    pub stage: Option<String>,
}

/// The address at which messages are posted back to connections of a
/// request: `https://<domain>/<stage>`.
pub fn endpoint(ctx: &RequestContext) -> (r: String)
    requires
        ctx.domain_name is Some,
        ctx.stage is Some,
    ensures
        r@ == "https://"@ + ctx.domain_name->0@ + "/"@ + ctx.stage->0@,
{
    let domain = ctx.domain_name.as_ref().unwrap();
    let stage = ctx.stage.as_ref().unwrap();
    let mut r = String::from_str("https://");
    r.append(domain.as_str());
    r.append("/");
    r.append(stage.as_str());
    r
}

/// A websocket address made an https one: a leading `wss://` becomes
/// `https://`; any other address is kept.
pub fn https_endpoint(api_url: &str) -> (r: String)
    ensures
        api_url@.len() >= 6 && api_url@.subrange(0, 6) == "wss://"@ ==> r@ == "https://"@ + api_url@.subrange(6, api_url@.len() as int),
        !(api_url@.len() >= 6 && api_url@.subrange(0, 6) == "wss://"@) ==> r@ == api_url@,
{
    let n = api_url.unicode_len();
    if n >= 6 && str_equal(api_url.substring_char(0, 6), "wss://") {
        let mut r = String::from_str("https://");
        r.append(api_url.substring_char(6, n));
        r
    } else {
        String::from_str(api_url)
    }
}

/// The actions a player can send.
#[derive(Clone, Copy, Debug, PartialEq, Eq, Structural)]
pub enum ActionKind {
    Bodyguard,
    Join,
    Lynch,
    Seer,
    Sleep,
    Start,
    Werewolf,
}

pub open spec fn action_name(a: ActionKind) -> Seq<char> {
    match a {
        ActionKind::Bodyguard => "bodyguard"@,
        ActionKind::Join => "join"@,
        ActionKind::Lynch => "lynch"@,
        ActionKind::Seer => "seer"@,
        ActionKind::Sleep => "sleep"@,
        ActionKind::Start => "start"@,
        ActionKind::Werewolf => "werewolf"@,
    }
}

impl ActionKind {
    /// The action named `s` in a request's `action` field.
    pub fn from_str(s: &str) -> (r: Option<ActionKind>)
        ensures
            match r {
                Some(a) => action_name(a) == s@,
                None => forall|a: ActionKind| action_name(a) != s@,
            },
    {
        if str_equal(s, "bodyguard") {
            Some(ActionKind::Bodyguard)
        } else if str_equal(s, "join") {
            Some(ActionKind::Join)
        } else if str_equal(s, "lynch") {
            Some(ActionKind::Lynch)
        } else if str_equal(s, "seer") {
            Some(ActionKind::Seer)
        } else if str_equal(s, "sleep") {
            Some(ActionKind::Sleep)
        } else if str_equal(s, "start") {
            Some(ActionKind::Start)
        } else if str_equal(s, "werewolf") {
            Some(ActionKind::Werewolf)
        } else {
            None
        }
    }
}

/// The answer to an action of no known name: an error that names it.
pub fn handle_unknown(action: String) -> (r: Result<(), ActionError>)
    ensures
        r matches Err(e) && e.kind == ErrorKind::UnknownAction
            && e.details@ == "Unknown action \""@ + action@ + "\"!"@,
{
    let mut msg = String::from_str("Unknown action \"");
    msg.append(action.as_str());
    msg.append("\"!");
    Err(ActionError::new(ErrorKind::UnknownAction, msg.as_str()))
}

} // verus!
