//! The control plane: commands addressed to one session, their text form on
//! the bus, and the bus itself.
//!
//! A control message is the text `<session id>:<command>`. Every supervision
//! loop hears every message and keeps those whose part before the first colon
//! is its own session id.

use crate::text::chars_of;
use vstd::prelude::*;
use vstd::string::*;

verus! {

/// A directive for the supervision loop of one session.
#[derive(Clone, Copy, Debug, PartialEq, Eq, Structural)]
pub enum Command {
    Pause,
    Resume,
    Stop,
}

/// The word that stands for a command in a control message.
pub open spec fn command_text(command: Command) -> Seq<char> {
    match command {
        Command::Pause => "pause"@,
        Command::Resume => "resume"@,
        Command::Stop => "stop"@,
    }
}

/// The text of the control message that carries `command` to session `id`.
pub open spec fn control_text(id: Seq<char>, command: Command) -> Seq<char> {
    id + ":"@ + command_text(command)
}

/// The position of the first colon of `message`, or its length if it holds
/// none.
pub open spec fn first_colon(message: Seq<char>) -> int
    decreases message.len(),
{
    if message.len() == 0 || message[0] == ':' {
        0
    } else {
        1 + first_colon(message.drop_first())
    }
}

/// The session a control message is addressed to: what stands before its
/// first colon.
pub open spec fn message_target(message: Seq<char>) -> Seq<char> {
    message.take(first_colon(message))
}

/// What follows the first colon of a control message, if it has one.
pub open spec fn message_verb(message: Seq<char>) -> Option<Seq<char>> {
    if first_colon(message) < message.len() {
        Some(message.skip(first_colon(message) + 1))
    } else {
        None
    }
}

/// The command that a word stands for.
pub open spec fn command_named(word: Seq<char>) -> Option<Command> {
    if word == "pause"@ {
        Some(Command::Pause)
    } else if word == "resume"@ {
        Some(Command::Resume)
    } else if word == "stop"@ {
        Some(Command::Stop)
    } else {
        None
    }
}

/// The command that `message` carries to session `id`: `None` where the
/// message is addressed to another session, has no colon, or names no
/// command.
pub open spec fn addressed_command(message: Seq<char>, id: Seq<char>) -> Option<Command> {
    if message_target(message) == id {
        match message_verb(message) {
            Some(word) => command_named(word),
            None => None,
        }
    } else {
        None
    }
}

impl Command {
    /// The word that stands for this command in a control message.
    pub fn text(&self) -> (word: &'static str)
        ensures
            word@ == command_text(*self),
    {
        match self {
            Command::Pause => "pause",
            Command::Resume => "resume",
            Command::Stop => "stop",
        }
    }
}

/// Builds the control message that carries `command` to session `id`.
pub fn control_message(id: &str, command: Command) -> (message: String)
    ensures
        message@ == control_text(id@, command),
{
    let mut message = String::from_str(id);
    message.append(":");
    message.append(command.text());
    message
}

/// The first colon of a text is where `at` says, if a colon stands there and
/// none before.
pub proof fn lemma_first_colon_is(message: Seq<char>, at: int)
    requires
        0 <= at <= message.len(),
        at < message.len() ==> message[at] == ':',
        forall|k: int| 0 <= k < at ==> message[k] != ':',
    ensures
        first_colon(message) == at,
    decreases message.len(),
{
    if message.len() == 0 || message[0] == ':' {
    } else {
        let rest = message.drop_first();
        assert forall|k: int| 0 <= k < at - 1 implies rest[k] != ':' by {
            assert(rest[k] == message[k + 1]);
        }
        lemma_first_colon_is(rest, at - 1);
    }
}

/// Whether what stands in `text` from `from` on is `word`.
fn slice_matches(text: &Vec<char>, from: usize, word: &str) -> (same: bool)
    requires
        from <= text.len(),
    ensures
        same == (text@.skip(from as int) == word@),
{
    let other = chars_of(word);
    if text.len() - from != other.len() {
        return false;
    }
    let mut i: usize = 0;
    while i < other.len()
        invariant
            i <= other.len(),
            from + other.len() == text.len(),
            other@ == word@,
            forall|k: int| 0 <= k < i ==> text@[from + k] == other@[k],
        decreases other.len() - i,
    {
        if text[from + i] != other[i] {
            assert(text@.skip(from as int)[i as int] != other@[i as int]);
            return false;
        }
        i += 1;
    }
    assert(text@.skip(from as int) =~= other@);
    true
}

/// Reads a control message for session `id`: the command it carries, or
/// `None` where it is addressed to another session or carries no command.
pub fn parse_control(message: &str, id: &str) -> (command: Option<Command>)
    ensures
        command == addressed_command(message@, id@),
{
    let text = chars_of(message);
    let own = chars_of(id);
    let mut colon: usize = 0;
    while colon < text.len() && text[colon] != ':'
        invariant
            colon <= text.len(),
            forall|k: int| 0 <= k < colon ==> text@[k] != ':',
        decreases text.len() - colon,
    {
        colon += 1;
    }
    proof {
        lemma_first_colon_is(text@, colon as int);
    }
    if colon != own.len() {
        assert(message_target(text@).len() != own@.len());
        return None;
    }
    let mut i: usize = 0;
    while i < colon
        invariant
            i <= colon,
            colon == own.len(),
            colon <= text.len(),
            colon == first_colon(text@),
            text@ == message@,
            own@ == id@,
            forall|k: int| 0 <= k < i ==> text@[k] == own@[k],
        decreases colon - i,
    {
        if text[i] != own[i] {
            assert(message_target(text@)[i as int] != own@[i as int]);
            return None;
        }
        i += 1;
    }
    assert(message_target(text@) =~= own@);
    if colon == text.len() {
        return None;
    }
    if slice_matches(&text, colon + 1, "pause") {
        Some(Command::Pause)
    } else if slice_matches(&text, colon + 1, "resume") {
        Some(Command::Resume)
    } else if slice_matches(&text, colon + 1, "stop") {
        Some(Command::Stop)
    } else {
        None
    }
}

/// The sending half of a `tokio` broadcast channel, carried as an opaque
/// value.
#[verifier::external_type_specification]
#[verifier::external_body]
#[verifier::reject_recursive_types(T)]
pub struct ExBroadcastSender<T>(tokio::sync::broadcast::Sender<T>);

/// The receiving half of a `tokio` broadcast channel, carried as an opaque
/// value.
#[verifier::external_type_specification]
#[verifier::external_body]
#[verifier::reject_recursive_types(T)]
pub struct ExBroadcastReceiver<T>(tokio::sync::broadcast::Receiver<T>);

/// The largest backlog a bus can be made with.
pub const MAX_BACKLOG: usize = usize::MAX / 2;

/// The backlog of the bus that `ControlBus::new` makes.
pub const DEFAULT_BACKLOG: usize = 1024;

/// Calls `tokio::sync::broadcast::Sender::new`, which makes a channel that
/// keeps up to `backlog` messages for slow receivers. Nothing is claimed of
/// the sender it returns. The call panics on a backlog of zero or above half
/// of `usize::MAX`, which the precondition leaves out.
#[verifier::external_body]
fn open_channel(backlog: usize) -> (sender: tokio::sync::broadcast::Sender<String>)
    requires
        0 < backlog <= MAX_BACKLOG,
{
    tokio::sync::broadcast::Sender::new(backlog)
}

/// Calls `tokio::sync::broadcast::Sender::send`, which hands the message to
/// every receiver subscribed at that moment and fails when there is none.
/// The outcome depends on who listens, and the bus has no use for it: it is
/// dropped, and nothing is claimed.
#[verifier::external_body]
fn send_text(sender: &tokio::sync::broadcast::Sender<String>, message: String) {
    let _ = sender.send(message);
}

/// Calls `tokio::sync::broadcast::Sender::subscribe`, which makes a receiver
/// for the messages sent from then on. Nothing is claimed of the receiver.
#[verifier::external_body]
fn subscribe_to(sender: &tokio::sync::broadcast::Sender<String>) -> (receiver:
    tokio::sync::broadcast::Receiver<String>) {
    sender.subscribe()
}

/// The process-wide broadcast channel for control messages.
///
/// Publishing never blocks and never fails for the publisher: a message that
/// nobody hears is dropped. The bus keeps a ghost log of the messages handed
/// to it, so that contracts can say what a caller published.
pub struct ControlBus {
    sender: tokio::sync::broadcast::Sender<String>,
    log: Ghost<Seq<Seq<char>>>,
}

impl ControlBus {
    /// The messages published on this bus so far, oldest first.
    pub closed spec fn published(&self) -> Seq<Seq<char>> {
        self.log@
    }

    /// A bus that keeps the default backlog of messages for slow subscribers,
    /// and on which nothing was published yet.
    pub fn new() -> (bus: ControlBus)
        ensures
            bus.published() == Seq::<Seq<char>>::empty(),
    {
        ControlBus { sender: open_channel(DEFAULT_BACKLOG), log: Ghost(Seq::empty()) }
    }

    /// Publishes `command` for session `id`. With no subscriber the message
    /// is dropped; the publisher never learns of it.
    pub fn publish(&mut self, id: &str, command: Command)
        ensures
            final(self).published() == old(self).published().push(control_text(id@, command)),
    {
        let message = control_message(id, command);
        self.log = Ghost(self.log@.push(message@));
        send_text(&self.sender, message);
    }

    /// Subscribes to the bus: what is published from now on is owed to the subscriber.
    pub fn subscribe(&self) -> (subscription: Subscription)
        ensures
            subscription.since@ == self.published().len(),
            published_since(self.published(), subscription.since@) == Seq::<Seq<char>>::empty(),
    {
        let since = Ghost(self.log@.len());
        assert(self.log@.skip(self.log@.len() as int) =~= Seq::<Seq<char>>::empty());
        Subscription { receiver: subscribe_to(&self.sender), since }
    }
}

/// One subscriber's end of the control bus.
///
/// The receiver is `tokio`'s, and what it delivers is `tokio`'s to say: the
/// messages sent after it was made, as far as the backlog of the channel
/// keeps them for a subscriber that is slow. The subscription remembers how
/// many messages had been published when it was made, so that contracts can
/// say which messages it is owed.
pub struct Subscription {
    /// The receiving half of the channel.
    pub receiver: tokio::sync::broadcast::Receiver<String>,
    /// How many messages had been published on the bus when the subscription
    /// was made.
    pub since: Ghost<nat>,
}

/// The messages that a subscription is owed of `published`, oldest first: all
/// but the `since` that were published before it was made.
pub open spec fn published_since(published: Seq<Seq<char>>, since: nat) -> Seq<Seq<char>> {
    if since <= published.len() {
        published.skip(since as int)
    } else {
        Seq::empty()
    }
}

/// What is published after a subscription was made is owed to it, in the
/// order in which it was published, and nothing is ever taken back.
pub proof fn lemma_published_is_owed(published: Seq<Seq<char>>, since: nat, message: Seq<char>)
    requires
        since <= published.len(),
    ensures
        published_since(published.push(message), since) == published_since(published, since).push(
            message,
        ),
{
    assert(published.push(message).skip(since as int) =~= published.skip(since as int).push(
        message,
    ));
}

/// A control message built for a session is read back by that session as
/// the command it was built from, provided the session id holds no colon.
pub proof fn lemma_control_round_trip(id: Seq<char>, command: Command)
    requires
        forall|k: int| 0 <= k < id.len() ==> id[k] != ':',
    ensures
        addressed_command(control_text(id, command), id) == Some(command),
{
    reveal_strlit(":");
    reveal_strlit("pause");
    reveal_strlit("resume");
    reveal_strlit("stop");
    let message = control_text(id, command);
    assert(message.len() == id.len() + 1 + command_text(command).len());
    assert(message[id.len() as int] == ':');
    assert forall|k: int| 0 <= k < id.len() implies message[k] != ':' by {
        assert(message[k] == id[k]);
    }
    lemma_first_colon_is(message, id.len() as int);
    assert(message_target(message) =~= id);
    assert(message.skip(id.len() as int + 1) =~= command_text(command));
    assert("pause"@.len() == 5 && "resume"@.len() == 6 && "stop"@.len() == 4);
}

/// A control message built for one session carries nothing to a session with
/// another id.
pub proof fn lemma_control_other_session(id: Seq<char>, other: Seq<char>, command: Command)
    requires
        forall|k: int| 0 <= k < id.len() ==> id[k] != ':',
        other != id,
    ensures
        addressed_command(control_text(id, command), other) is None,
{
    reveal_strlit(":");
    let message = control_text(id, command);
    assert(message[id.len() as int] == ':');
    assert forall|k: int| 0 <= k < id.len() implies message[k] != ':' by {
        assert(message[k] == id[k]);
    }
    lemma_first_colon_is(message, id.len() as int);
    assert(message_target(message) =~= id);
}

} // verus!
