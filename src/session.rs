//! The per-connection side: what a session does with each frame that its
//! peer sends.

use vstd::prelude::*;
use vstd::string::StrSliceExecFns;
use crate::client;
use crate::server::{Disconnect, Join};
use crate::text::{append, debug_quoted, debug_string, trim, trimmed};

verus! {

/// A frame received from the peer.
pub enum Frame {
    Ping(String),
    Pong(String),
    Text(String),
    Binary(Vec<u8>),
    Close,
}

/// A line of input, classified.
pub enum Command {
    /// `/list`
    List,
    /// `/join`, with its argument if there is one
    Join(Option<String>),
    /// `/name`, with its argument if there is one
    Name(Option<String>),
    /// any other input that starts with `/`
    Unknown,
    /// input that does not start with `/`
    Chat,
}

/// What the connection does in answer to a frame.
pub enum Reaction {
    /// answer a ping with this pong payload
    Pong(String),
    /// the peer is alive: note the time
    Heartbeat,
    /// ask the registry for the rooms and write each on its own line
    ListRooms,
    /// send `request` to the registry and write `reply` to the peer
    JoinRoom { request: Join, reply: String },
    /// write this text to the peer
    Reply(String),
    /// send this chat line to the registry
    Chat(client::Message),
    /// nothing to send
    Ignore,
    /// close the connection
    Stop,
}

/// A peer that has answered no ping for longer than this many milliseconds
/// is dropped.
pub const CLIENT_TIMEOUT_MS: u64 = 10000;

/// Whether a peer that has been silent for `silent_ms` milliseconds is gone.
pub fn heartbeat_expired(silent_ms: u64) -> (r: bool)
    ensures
        r == (silent_ms > CLIENT_TIMEOUT_MS),
{
    silent_ms > CLIENT_TIMEOUT_MS
}

pub open spec fn is_command(m: Seq<char>) -> bool {
    m.len() > 0 && m[0] == '/'
}

/// Index of the first space at or after `i`, or the length if there is none.
pub open spec fn space_from(m: Seq<char>, i: int) -> int
    decreases m.len() - i,
{
    if i < 0 || i >= m.len() {
        m.len() as int
    } else if m[i] == ' ' {
        i
    } else {
        space_from(m, i + 1)
    }
}

/// The command word: everything before the first space.
pub open spec fn head(m: Seq<char>) -> Seq<char> {
    m.subrange(0, space_from(m, 0))
}

/// Everything after the first space, if there is one.
pub open spec fn argument(m: Seq<char>) -> Option<Seq<char>> {
    let k = space_from(m, 0);
    if k < m.len() {
        Some(m.subrange(k + 1, m.len() as int))
    } else {
        None
    }
}

pub open spec fn opt_view(a: Option<String>) -> Option<Seq<char>> {
    match a {
        Some(s) => Some(s@),
        None => None,
    }
}

/// The line that a chat input becomes, under the sender's display name.
pub open spec fn chat_line(name: Option<Seq<char>>, m: Seq<char>) -> Seq<char> {
    match name {
        Some(n) => n + ": "@ + m,
        None => m,
    }
}

pub open spec fn unknown_reply(quoted: Seq<char>) -> Seq<char> {
    "!!! unknown command: "@ + quoted
}

/// Classifies one line of input, already trimmed. A command is a `/` word,
/// and its argument is all that follows the first space.
pub fn parse_command(m: &str) -> (r: Command)
    ensures
        !is_command(m@) <==> r is Chat,
        is_command(m@) && head(m@) == "/list"@ ==> r is List,
        is_command(m@) && head(m@) == "/join"@ ==> (r matches Command::Join(a) && opt_view(a) == argument(m@)),
        is_command(m@) && head(m@) == "/name"@ ==> (r matches Command::Name(a) && opt_view(a) == argument(m@)),
        is_command(m@) && head(m@) != "/list"@ && head(m@) != "/join"@ && head(m@) != "/name"@ ==> r is Unknown,
{
    let len = m.unicode_len();
    if len == 0 || m.get_char(0) != '/' {
        return Command::Chat;
    }
    let mut k: usize = 0;
    while k < len && m.get_char(k) != ' '
        invariant
            len == m@.len(),
            k <= len,
            space_from(m@, k as int) == space_from(m@, 0),
        decreases len - k,
    {
        k = k + 1;
    }
    assert(space_from(m@, 0) == k);
    let word = m.substring_char(0, k);
    let arg = if k < len {
        Some(m.substring_char(k + 1, len).to_owned())
    } else {
        None
    };
    proof {
        reveal_strlit("/list");
        reveal_strlit("/join");
        reveal_strlit("/name");
        assert("/list"@[1] != "/join"@[1]);
        assert("/list"@[1] != "/name"@[1]);
        assert("/join"@[1] != "/name"@[1]);
        assert(word@ == head(m@));
    }
    if same_text(word, "/list") {
        Command::List
    } else if same_text(word, "/join") {
        Command::Join(arg)
    } else if same_text(word, "/name") {
        Command::Name(arg)
    } else {
        Command::Unknown
    }
}

/// Whether two strings hold the same characters.
pub fn same_text(a: &str, b: &str) -> (r: bool)
    ensures
        r == (a@ == b@),
{
    let n = a.unicode_len();
    if n != b.unicode_len() {
        return false;
    }
    let mut i: usize = 0;
    while i < n
        invariant
            n == a@.len(),
            n == b@.len(),
            i <= n,
            a@.subrange(0, i as int) == b@.subrange(0, i as int),
        decreases n - i,
    {
        if a.get_char(i) != b.get_char(i) {
            return false;
        }
        assert(a@.subrange(0, i + 1) =~= a@.subrange(0, i as int).push(a@[i as int]));
        assert(b@.subrange(0, i + 1) =~= b@.subrange(0, i as int).push(b@[i as int]));
        i = i + 1;
    }
    assert(a@ =~= a@.subrange(0, n as int));
    assert(b@ =~= b@.subrange(0, n as int));
    true
}

/// The line that a chat input `m` becomes under the display name `name`.
pub fn chat_text(name: &Option<String>, m: &str) -> (r: String)
    ensures
        r@ == chat_line(opt_view(*name), m@),
{
    match name {
        Some(n) => {
            let mut line = n.clone();
            append(&mut line, ": ");
            append(&mut line, m);
            line
        },
        None => m.to_owned(),
    }
}

/// The error written back for an unknown command, from the command as
/// `{:?}` prints it.
pub fn unknown_command_reply(quoted: &str) -> (r: String)
    ensures
        r@ == unknown_reply(quoted@),
{
    let mut line = "!!! unknown command: ".to_owned();
    append(&mut line, quoted);
    line
}

/// One connection's state: its identity once the registry has given one,
/// its display name, and whether it has already told the registry that it
/// is gone.
pub struct WsChatSession {
    id: usize,
    name: Option<String>,
    disconnected: bool,
}

impl WsChatSession {
    pub closed spec fn session_id(&self) -> usize {
        self.id
    }

    pub closed spec fn display_name(&self) -> Option<Seq<char>> {
        opt_view(self.name)
    }

    pub closed spec fn has_disconnected(&self) -> bool {
        self.disconnected
    }

    /// What teardown does, taking `before` to `after` with the result `r`:
    /// the first one tells the registry, any later one does nothing.
    pub open spec fn stop_effect(before: Self, after: Self, r: Option<Disconnect>) -> bool {
        &&& after.has_disconnected()
        &&& after.session_id() == before.session_id()
        &&& after.display_name() == before.display_name()
        &&& !before.has_disconnected() ==> (r matches Some(d) && d.id == before.session_id())
        &&& before.has_disconnected() ==> r is None
    }

    /// What a text frame `text` does, taking `before` to `after` with the
    /// reaction `r`: the line is trimmed, then read as a command or as chat.
    pub open spec fn text_effect(before: Self, after: Self, text: Seq<char>, r: Reaction) -> bool {
        let m = trimmed(text);
        let name = before.display_name();
        &&& after.session_id() == before.session_id()
        &&& after.has_disconnected() == before.has_disconnected()
        &&& !(is_command(m) && head(m) == "/name"@ && argument(m) is Some)
            ==> after.display_name() == name
        &&& !is_command(m) ==> (r matches Reaction::Chat(c)
            && c.id == before.session_id() && c.msg@ == chat_line(name, m))
        &&& is_command(m) && head(m) == "/list"@ ==> r is ListRooms
        &&& is_command(m) && head(m) == "/join"@ && argument(m) is Some
            ==> (r matches Reaction::JoinRoom { request, reply }
            && request.id == before.session_id() && reply@ == "joined"@)
        &&& is_command(m) && head(m) == "/join"@ && argument(m) is None
            ==> (r matches Reaction::Reply(t) && t@ == "!!! room name is required"@)
        &&& is_command(m) && head(m) == "/name"@ && argument(m) is Some
            ==> r is Ignore && after.display_name() == argument(m)
        &&& is_command(m) && head(m) == "/name"@ && argument(m) is None
            ==> (r matches Reaction::Reply(t) && t@ == "!!! name is required"@)
        &&& is_command(m) && head(m) != "/list"@ && head(m) != "/join"@ && head(m) != "/name"@
            ==> (r matches Reaction::Reply(t) && t@ == unknown_reply(debug_quoted(m)))
    }

    /// A connection that has no identity yet (0 names no session).
    pub fn new() -> (r: Self)
        ensures
            r.session_id() == 0,
            r.display_name() is None,
            !r.has_disconnected(),
    {
        WsChatSession { id: 0, name: None, disconnected: false }
    }

    pub fn id(&self) -> (r: usize)
        ensures
            r == self.session_id(),
    {
        self.id
    }

    /// The registry's answer to `Connect`: the identity, or `None` when the
    /// registry could not be reached or refused. Returns whether the
    /// connection goes on; when it does not, the caller stops it.
    pub fn started(&mut self, reply: Option<usize>) -> (go_on: bool)
        ensures
            go_on == reply is Some,
            reply matches Some(id) ==> final(self).session_id() == id,
            reply is None ==> final(self).session_id() == old(self).session_id(),
            final(self).display_name() == old(self).display_name(),
            final(self).has_disconnected() == old(self).has_disconnected(),
    {
        match reply {
            Some(id) => {
                self.id = id;
                true
            },
            None => false,
        }
    }

    /// Teardown: the `Disconnect` to send to the registry, the first time
    /// only, whichever way the connection ends.
    pub fn stopping(&mut self) -> (r: Option<Disconnect>)
        ensures
            Self::stop_effect(*old(self), *final(self), r),
    {
        if self.disconnected {
            None
        } else {
            self.disconnected = true;
            Some(Disconnect { id: self.id })
        }
    }

    /// A text frame: a command, or a chat line for the registry.
    pub fn handle_text(&mut self, text: &str) -> (r: Reaction)
        ensures
            Self::text_effect(*old(self), *final(self), text@, r),
    {
        let m = trim(text);
        match parse_command(m) {
            Command::List => Reaction::ListRooms,
            Command::Join(Some(_)) => Reaction::JoinRoom {
                request: Join { id: self.id },
                reply: "joined".to_owned(),
            },
            Command::Join(None) => Reaction::Reply("!!! room name is required".to_owned()),
            Command::Name(Some(n)) => {
                self.name = Some(n);
                Reaction::Ignore
            },
            Command::Name(None) => Reaction::Reply("!!! name is required".to_owned()),
            Command::Unknown => Reaction::Reply(unknown_command_reply(debug_string(m).as_str())),
            Command::Chat => Reaction::Chat(client::Message { id: self.id, msg: chat_text(&self.name, m) }),
        }
    }

    /// One frame from the peer, handled in arrival order.
    pub fn handle(&mut self, frame: Frame) -> (r: Reaction)
        ensures
            final(self).session_id() == old(self).session_id(),
            final(self).has_disconnected() == old(self).has_disconnected(),
            frame matches Frame::Ping(p) ==> (r matches Reaction::Pong(q) && q@ == p@),
            frame matches Frame::Text(t) ==> Self::text_effect(*old(self), *final(self), t@, r),
            frame is Pong ==> r is Heartbeat,
            frame is Binary ==> r is Ignore,
            frame is Close ==> r is Stop,
            !(frame is Text) ==> final(self).display_name() == old(self).display_name(),
    {
        match frame {
            Frame::Ping(p) => Reaction::Pong(p),
            Frame::Pong(_) => Reaction::Heartbeat,
            Frame::Text(t) => self.handle_text(t.as_str()),
            Frame::Binary(_) => Reaction::Ignore,
            Frame::Close => Reaction::Stop,
        }
    }
}

/// Teardown runs at most once: of two teardowns, from whatever triggers,
/// exactly the first sends a `Disconnect` when none was sent before, and
/// neither does otherwise.
pub proof fn lemma_single_disconnect(
    s0: WsChatSession,
    s1: WsChatSession,
    s2: WsChatSession,
    first: Option<Disconnect>,
    second: Option<Disconnect>,
)
    requires
        WsChatSession::stop_effect(s0, s1, first),
        WsChatSession::stop_effect(s1, s2, second),
    ensures
        second is None,
        first is Some <==> !s0.has_disconnected(),
        first matches Some(d) ==> d.id == s0.session_id(),
{
}

} // verus!
