use vstd::prelude::*;

verus! {

/// An internal failure: an upstream or storage error with a short context
/// text. It is logged on the server and never shown to the client.
pub struct Error {
    pub message: String,
}

impl Error {
    pub fn new(message: String) -> (r: Error)
        ensures
            r.message@ == message@,
    {
        Error { message }
    }

    /// HTTP status that an internal failure is answered with.
    pub fn status(&self) -> (r: u16)
        ensures
            r == 500,
    {
        500
    }
}

/// A failure the client caused, answered with a fixed, safe message.
#[derive(Clone, Copy, Debug, PartialEq, Eq, Structural)]
pub enum Rejection {
    /// The state token is unknown, or was issued to another IP address.
    StateNotLinked,
    /// The identity provider issued a token whose type is not `Bearer`.
    NotBearer,
    /// The identity provider granted a scope other than exactly `identify`.
    WrongScope,
    /// The caller is authenticated but does not administer the guild.
    NotAdministrator,
    /// The guild could not be resolved at the provider.
    GuildNotFound,
    /// The channel of an update could not be resolved.
    UnknownChannel,
    /// The channel of an update is not inside a guild.
    NotGuildChannel,
    /// The caller is not a member of the channel's guild.
    NotGuildMember,
}

impl Rejection {
    pub open spec fn status_spec(self) -> u16 {
        match self {
            Rejection::StateNotLinked => 401,
            _ => 400,
        }
    }

    /// HTTP status of the rejection: 401 for an unlinked state, 400 otherwise.
    pub fn status(&self) -> (r: u16)
        ensures
            r == self.status_spec(),
    {
        match self {
            Rejection::StateNotLinked => 401,
            _ => 400,
        }
    }

    pub open spec fn message_spec(self) -> Seq<char> {
        match self {
            Rejection::StateNotLinked => "This state is not linked to your ip address."@,
            Rejection::NotBearer => "Only accepting `Bearer` tokens."@,
            Rejection::WrongScope => "Only accepting `identify` as the scope."@,
            Rejection::NotAdministrator => "You must be an administrator."@,
            Rejection::GuildNotFound => "Couldn't find guild."@,
            Rejection::UnknownChannel => "Unknown channel id."@,
            Rejection::NotGuildChannel => "Channel is not inside a guild."@,
            Rejection::NotGuildMember => "Couldn't find your user in this guild."@,
        }
    }

    /// The fixed text shown to the client. An unknown state and a state of
    /// another IP address share one text, so neither is revealed.
    pub fn message(&self) -> (r: &'static str)
        ensures
            r@ == self.message_spec(),
    {
        match self {
            Rejection::StateNotLinked => "This state is not linked to your ip address.",
            Rejection::NotBearer => "Only accepting `Bearer` tokens.",
            Rejection::WrongScope => "Only accepting `identify` as the scope.",
            Rejection::NotAdministrator => "You must be an administrator.",
            Rejection::GuildNotFound => "Couldn't find guild.",
            Rejection::UnknownChannel => "Unknown channel id.",
            Rejection::NotGuildChannel => "Channel is not inside a guild.",
            Rejection::NotGuildMember => "Couldn't find your user in this guild.",
        }
    }
}

} // verus!
