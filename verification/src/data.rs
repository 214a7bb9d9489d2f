use vstd::prelude::*;

verus! {

/// Seconds since the Unix epoch. Every stored message and ad carries one.
pub type Timestamp = i64;

/// Visibility mode of a channel.
#[derive(Clone, Copy, PartialEq, Eq, Structural, Debug)]
pub enum ChannelMode {
    Public,
    Private,
}

/// Gender of a character's profile. A fresh profile starts as `Unknown`.
#[derive(Clone, Copy, PartialEq, Eq, Structural, Debug)]
pub enum Gender {
    Unknown,
    Male,
    Female,
}

/// Presence status of a character. A fresh profile starts as `Offline`.
#[derive(Clone, Copy, PartialEq, Eq, Structural, Debug)]
pub enum Status {
    Offline,
    Online,
    Looking,
    Busy,
    Away,
}

/// Payload of a stored message. The store keeps the textual kind.
#[derive(Debug)]
pub enum MessageContent {
    Text(String),
}

/// Abstract value of a `MessageContent`.
#[verifier::ext_equal]
pub enum ContentV {
    Text(Seq<char>),
}

impl View for MessageContent {
    type V = ContentV;

    open spec fn view(&self) -> ContentV {
        match self {
            MessageContent::Text(s) => ContentV::Text(s@),
        }
    }
}

impl Clone for MessageContent {
    fn clone(&self) -> (res: Self)
        ensures
            res == *self,
    {
        match self {
            MessageContent::Text(s) => MessageContent::Text(s.clone()),
        }
    }
}

/// One chat message as the store keeps it: when it arrived, who sent it, and
/// what it said.
#[derive(Debug)]
pub struct Message {
    pub timestamp: Timestamp,
    pub character: String,
    pub content: MessageContent,
}

/// Abstract value of a `Message`.
#[verifier::ext_equal]
pub struct MessageV {
    pub timestamp: int,
    pub character: Seq<char>,
    pub content: ContentV,
}

impl View for Message {
    type V = MessageV;

    open spec fn view(&self) -> MessageV {
        MessageV { timestamp: self.timestamp as int, character: self.character@, content: self.content@ }
    }
}

impl Clone for Message {
    fn clone(&self) -> (res: Self)
        ensures
            res == *self,
    {
        Message {
            timestamp: self.timestamp,
            character: self.character.clone(),
            content: self.content.clone(),
        }
    }
}

/// Returns whether two messages are structurally equal: same timestamp, same
/// author, same content. Message dedup goes by this, so a retransmission is
/// only dropped when its timestamp matches exactly.
pub fn message_eq(a: &Message, b: &Message) -> (r: bool)
    ensures
        r == (a@ == b@),
{
    let content_same = match (&a.content, &b.content) {
        (MessageContent::Text(x), MessageContent::Text(y)) => *x == *y,
    };
    let r = a.timestamp == b.timestamp && a.character == b.character && content_same;
    proof {
        if r {
            assert(a@ =~= b@);
        }
    }
    r
}

/// A conversation key: a channel's public room, or a private conversation
/// between two characters. Private keys are kept exactly as given: the pair
/// (a, b) and the pair (b, a) name two distinct conversations; the store does
/// not normalize participant order, callers must present a stable order.
#[derive(Debug)]
pub enum MessageChannel {
    Channel(String),
    PrivateMessage(String, String),
}

/// Abstract value of a `MessageChannel`.
#[verifier::ext_equal]
pub enum ConvV {
    Channel(Seq<char>),
    PrivateMessage(Seq<char>, Seq<char>),
}

impl View for MessageChannel {
    type V = ConvV;

    open spec fn view(&self) -> ConvV {
        match self {
            MessageChannel::Channel(c) => ConvV::Channel(c@),
            MessageChannel::PrivateMessage(a, b) => ConvV::PrivateMessage(a@, b@),
        }
    }
}

impl Clone for MessageChannel {
    fn clone(&self) -> (res: Self)
        ensures
            res == *self,
    {
        match self {
            MessageChannel::Channel(c) => MessageChannel::Channel(c.clone()),
            MessageChannel::PrivateMessage(a, b) => MessageChannel::PrivateMessage(
                a.clone(),
                b.clone(),
            ),
        }
    }
}

/// Returns whether two conversation keys are equal.
pub fn conversation_eq(a: &MessageChannel, b: &MessageChannel) -> (r: bool)
    ensures
        r == (a@ == b@),
{
    match (a, b) {
        (MessageChannel::Channel(x), MessageChannel::Channel(y)) => *x == *y,
        (
            MessageChannel::PrivateMessage(x1, x2),
            MessageChannel::PrivateMessage(y1, y2),
        ) => *x1 == *y1 && *x2 == *y2,
        _ => false,
    }
}

/// A friend relation as the protocol reports it: a directed pair of character
/// identifiers. The store treats the pair as an opaque set element.
#[derive(Debug)]
pub struct FriendRelation {
    pub own_character: String,
    pub other_character: String,
}

impl View for FriendRelation {
    type V = (Seq<char>, Seq<char>);

    open spec fn view(&self) -> (Seq<char>, Seq<char>) {
        (self.own_character@, self.other_character@)
    }
}

impl Clone for FriendRelation {
    fn clone(&self) -> (res: Self)
        ensures
            res == *self,
    {
        FriendRelation {
            own_character: self.own_character.clone(),
            other_character: self.other_character.clone(),
        }
    }
}

/// Returns whether two friend relations are equal.
pub fn relation_eq(a: &FriendRelation, b: &FriendRelation) -> (r: bool)
    ensures
        r == (a@ == b@),
{
    let r = a.own_character == b.own_character && a.other_character == b.other_character;
    proof {
        if r {
            assert(a@ =~= b@);
        }
    }
    r
}

/// Fields of a channel announcement that may each be present or absent.
#[derive(Debug)]
pub struct PartialChannelData {
    pub mode: Option<ChannelMode>,
    pub title: Option<String>,
    pub description: Option<String>,
}

/// Abstract value of a `PartialChannelData`.
#[verifier::ext_equal]
pub struct PartialChannelV {
    pub mode: Option<ChannelMode>,
    pub title: Option<Seq<char>>,
    pub description: Option<Seq<char>>,
}

impl View for PartialChannelData {
    type V = PartialChannelV;

    open spec fn view(&self) -> PartialChannelV {
        PartialChannelV {
            mode: self.mode,
            title: match self.title {
                Option::Some(ref t) => Option::Some(t@),
                Option::None => Option::None,
            },
            description: match self.description {
                Option::Some(ref d) => Option::Some(d@),
                Option::None => Option::None,
            },
        }
    }
}

/// Fields of a character update that may each be present or absent.
#[derive(Debug)]
pub struct PartialUserData {
    pub gender: Option<Gender>,
    pub status: Option<Status>,
    pub status_message: Option<String>,
}

/// Abstract value of a `PartialUserData`.
#[verifier::ext_equal]
pub struct PartialUserV {
    pub gender: Option<Gender>,
    pub status: Option<Status>,
    pub status_message: Option<Seq<char>>,
}

impl View for PartialUserData {
    type V = PartialUserV;

    open spec fn view(&self) -> PartialUserV {
        PartialUserV {
            gender: self.gender,
            status: self.status,
            status_message: match self.status_message {
                Option::Some(ref m) => Option::Some(m@),
                Option::None => Option::None,
            },
        }
    }
}

/// The stored profile of one character: what the directory knows of them.
#[derive(Debug)]
pub struct CharacterDataInner {
    pub gender: Gender,
    pub status: Status,
    pub status_message: String,
}

/// Abstract value of a stored character profile.
#[verifier::ext_equal]
pub struct ProfileV {
    pub gender: Gender,
    pub status: Status,
    pub status_message: Seq<char>,
}

impl View for CharacterDataInner {
    type V = ProfileV;

    open spec fn view(&self) -> ProfileV {
        ProfileV { gender: self.gender, status: self.status, status_message: self.status_message@ }
    }
}

impl Clone for CharacterDataInner {
    fn clone(&self) -> (res: Self)
        ensures
            res == *self,
    {
        CharacterDataInner {
            gender: self.gender,
            status: self.status,
            status_message: self.status_message.clone(),
        }
    }
}

/// The profile a character gets when first mentioned: unknown gender, offline,
/// empty status message.
pub open spec fn default_profile_v() -> ProfileV {
    ProfileV { gender: Gender::Unknown, status: Status::Offline, status_message: Seq::empty() }
}

/// Builds the default profile.
pub fn default_profile() -> (r: CharacterDataInner)
    ensures
        r@ == default_profile_v(),
{
    let r = CharacterDataInner {
        gender: Gender::Unknown,
        status: Status::Offline,
        status_message: String::new(),
    };
    proof {
        assert(r@ =~= default_profile_v());
    }
    r
}

/// An owned snapshot of one character, as handed to readers.
#[derive(Debug)]
pub struct CharacterData {
    pub character: String,
    pub gender: Gender,
    pub status: Status,
    pub status_message: String,
}

impl CharacterData {
    /// The profile part of the snapshot.
    pub open spec fn profile_v(&self) -> ProfileV {
        ProfileV { gender: self.gender, status: self.status, status_message: self.status_message@ }
    }
}

/// An owned snapshot of one channel, as handed to readers. The operator set
/// is internal to the store and is not part of the snapshot.
#[derive(Debug)]
pub struct ChannelData {
    pub channel: String,
    pub channel_mode: ChannelMode,
    pub members: Vec<String>,
    pub description: String,
    pub title: String,
}

/// A message as presented to the UI layer.
#[derive(Debug)]
pub struct MessageEvent {
    pub from: String,
    pub to: String,
    pub pm: bool,
    pub content: String,
}

} // verus!
