//! One connection's side of the protocol: the greeting that opens a
//! session, which frames a client may send in which phase, and what each of
//! them leads to.

use vstd::prelude::*;
use vstd::utf8::encode_utf8;
use crate::codec::{decode, spec_decode, spec_encode, DecodeError};
use crate::error_code::ErrorCode;
use crate::flags::PLAYER_ACCEPTED;
use crate::frame::counted;
use crate::message::{message_views, Message, MessageView};
use crate::rules::{affordable, given_flags, given_health, given_name, INITIAL_POINTS, STAT_LIMIT};

verus! {

/// Where a connection stands.
#[derive(Clone, Copy, Debug, PartialEq, Eq, Structural)]
pub enum Phase {
    /// No character has been offered yet.
    AwaitingCharacter,
    /// A character was offered and passed on; the game has not started.
    Accepted,
    /// The player is in the game.
    Started,
    /// The handler has stopped.
    Closed,
}

/// What the handler does after a frame.
#[derive(Clone, Copy, Debug, PartialEq, Eq, Structural)]
pub enum Next {
    /// Read the next frame.
    Continue,
    /// Close the read half of the connection and stop.
    HalfClose,
    /// Stop.
    Stop,
}

/// The session of one connection. A session is made by `open` alone, which
/// hands out the greeting with it: no frame of a client is ever judged for a
/// connection whose greeting has not been made.
#[derive(Debug)]
pub struct Session {
    phase: Phase,
}

/// What a new connection is told before anything is read from it: the
/// version of the protocol, 2.3 without extensions, and then the rules of
/// the game, which are 40 points to spend, 500 as the cap on a stat, and
/// the description of the game.
pub open spec fn greeting(description: Seq<char>) -> Seq<MessageView> {
    seq![
        MessageView::Version { major_rev: 2, minor_rev: 3, extensions: Seq::empty() },
        MessageView::Game { initial_points: 40, stat_limit: 500, description },
    ]
}

/// The greeting on the wire: the VERSION frame is `0E 02 03 00 00`, and the
/// GAME frame is `0B 28 00 F4 01`, then the description behind its length.
pub proof fn lemma_greeting_on_the_wire(description: Seq<char>)
    ensures
        greeting(description).len() == 2,
        spec_encode(greeting(description)[0]) == seq![0x0Eu8, 0x02u8, 0x03u8, 0x00u8, 0x00u8],
        spec_encode(greeting(description)[1]) == seq![0x0Bu8, 0x28u8, 0x00u8, 0xF4u8, 0x01u8]
            + counted(encode_utf8(description)),
{
    assert(spec_encode(greeting(description)[0]) =~= seq![
        0x0Eu8,
        0x02u8,
        0x03u8,
        0x00u8,
        0x00u8,
    ]);
    assert(spec_encode(greeting(description)[1]) =~= seq![0x0Bu8, 0x28u8, 0x00u8, 0xF4u8, 0x01u8]
        + counted(encode_utf8(description)));
}

/// What a frame leads to: an event for the game loop, if any, and what the
/// handler does next. An ERROR event is a frame that the game loop writes
/// back to this connection.
#[derive(Debug, PartialEq, Eq)]
pub struct Reaction {
    pub event: Option<Message>,
    pub next: Next,
}

/// What a reaction is, as plain values.
pub struct ReactionView {
    pub event: Option<MessageView>,
    pub next: Next,
}

impl View for Reaction {
    type V = ReactionView;

    open spec fn view(&self) -> ReactionView {
        ReactionView {
            event: match self.event {
                Some(m) => Some(m@),
                None => None,
            },
            next: self.next,
        }
    }
}

/// Whether `ty` is the type of a frame that only the server sends.
pub open spec fn spec_server_only(ty: u8) -> bool {
    ty == 7 || ty == 8 || ty == 9 || ty == 11 || ty == 13 || ty == 14
}

/// What a client is told that sends a frame of a type that only the server sends.
pub open spec fn rebuke(ty: u8) -> Seq<char> {
    if ty == 7 {
        "I am the one who knocks, dont't try me!"@
    } else if ty == 8 {
        "Accept this disconnect you heathen."@
    } else if ty == 9 {
        "There isn't enough room here for the both of us pal."@
    } else if ty == 11 {
        "Hey! That's my job!"@
    } else if ty == 13 {
        "Connect these hands, nice try!"@
    } else {
        "Sorry no time traveling allowed!"@
    }
}

/// An ERROR event with what follows it.
pub open spec fn complaint(code: ErrorCode, text: Seq<char>, next: Next) -> ReactionView {
    ReactionView { event: Some(MessageView::Error { error: code, message: text }), next }
}

/// A CHARACTER message as it is passed on: the name, the flags and the
/// health are those that the character will get, and it has no gold and is
/// in the first room.
pub open spec fn offered(
    name: Seq<char>,
    flags: u8,
    attack: u16,
    defense: u16,
    regen: u16,
    health: i16,
    description: Seq<char>,
) -> MessageView {
    MessageView::Character {
        name: given_name(name),
        flags: given_flags(flags),
        attack,
        defense,
        regen,
        health: given_health(health),
        gold: 0,
        current_room: 0,
        description,
    }
}

/// The phase after a frame.
pub open spec fn next_phase(phase: Phase, bytes: Seq<u8>) -> Phase {
    if phase == Phase::Closed {
        Phase::Closed
    } else if bytes.len() > 0 && spec_server_only(bytes[0]) {
        Phase::Closed
    } else {
        match spec_decode(bytes) {
            Err(DecodeError::BadType) => if bytes[0] == 0 {
                phase
            } else {
                Phase::Closed
            },
            Err(_) => Phase::Closed,
            Ok((MessageView::Leave, _)) => Phase::Closed,
            Ok((MessageView::Start, _)) => if phase == Phase::Accepted {
                Phase::Started
            } else {
                phase
            },
            Ok((MessageView::Character { attack, defense, regen, .. }, _)) => if phase
                == Phase::AwaitingCharacter && affordable(attack, defense, regen) {
                Phase::Accepted
            } else {
                phase
            },
            Ok(_) => phase,
        }
    }
}

/// What a frame leads to in a phase.
///
/// A frame of a type that only the server sends is answered with an ERROR
/// and ends the connection, whatever follows the type byte. Bytes that end
/// before the frame does count as a lost connection: the game loop gets a
/// LEAVE. A type byte above 14 and a text that is not UTF-8 are answered
/// with an ERROR and end the connection; a type byte 0 is answered with an
/// ERROR only. MESSAGE, CHANGEROOM, FIGHT and LOOT pass once the game has
/// started, START passes once between the character and the game, CHARACTER
/// passes whenever its stats are within the points to spend, LEAVE always
/// passes, and PVPFIGHT never does.
pub open spec fn reaction(phase: Phase, bytes: Seq<u8>) -> ReactionView {
    if phase == Phase::Closed {
        ReactionView { event: None, next: Next::Stop }
    } else if bytes.len() > 0 && spec_server_only(bytes[0]) {
        complaint(ErrorCode::Other, rebuke(bytes[0]), Next::HalfClose)
    } else {
        match spec_decode(bytes) {
            Err(DecodeError::ShortRead) => ReactionView {
                event: Some(MessageView::Leave),
                next: Next::Stop,
            },
            Err(DecodeError::BadType) => complaint(
                ErrorCode::Other,
                "Unknown Message Type"@,
                if bytes[0] == 0 {
                    Next::Continue
                } else {
                    Next::HalfClose
                },
            ),
            Err(DecodeError::BadUtf8) => complaint(
                ErrorCode::Other,
                "Message text is not valid UTF-8!"@,
                Next::HalfClose,
            ),
            Ok((m, _)) => match m {
                MessageView::Leave => ReactionView { event: Some(m), next: Next::Stop },
                MessageView::PVPFight { .. } => complaint(
                    ErrorCode::NoPlayerCombat,
                    "Player PVP is not allowed!"@,
                    Next::Continue,
                ),
                MessageView::Start => if phase == Phase::Accepted {
                    ReactionView { event: Some(m), next: Next::Continue }
                } else if phase == Phase::Started {
                    complaint(ErrorCode::NotReady, "Character is already started!"@, Next::Continue)
                } else {
                    complaint(
                        ErrorCode::NotReady,
                        "You must create a character first!"@,
                        Next::Continue,
                    )
                },
                MessageView::Character {
                    name,
                    flags,
                    attack,
                    defense,
                    regen,
                    health,
                    gold,
                    current_room,
                    description,
                } => if affordable(attack, defense, regen) {
                    ReactionView {
                        event: Some(
                            offered(name, flags, attack, defense, regen, health, description),
                        ),
                        next: Next::Continue,
                    }
                } else {
                    complaint(
                        ErrorCode::StatError,
                        "Total points exceeds initial points"@,
                        Next::Continue,
                    )
                },
                _ => if phase == Phase::Started {
                    ReactionView { event: Some(m), next: Next::Continue }
                } else {
                    complaint(
                        ErrorCode::NotReady,
                        "You haven't started the game yet!"@,
                        Next::Continue,
                    )
                },
            },
        }
    }
}

/// How far a session has come.
pub open spec fn progress(phase: Phase) -> int {
    match phase {
        Phase::AwaitingCharacter => 0,
        Phase::Accepted => 1,
        Phase::Started => 2,
        Phase::Closed => 3,
    }
}

/// A session never goes back: no frame leads to an earlier phase, and a
/// closed handler stays closed and passes nothing on.
pub proof fn lemma_phase_never_goes_back(phase: Phase, bytes: Seq<u8>)
    ensures
        progress(next_phase(phase, bytes)) >= progress(phase),
        phase == Phase::Closed ==> reaction(phase, bytes).event is None && reaction(
            phase,
            bytes,
        ).next == Next::Stop,
        reaction(phase, bytes).next != Next::Continue <==> next_phase(phase, bytes)
            == Phase::Closed,
{
}

/// What reaches the game loop as anything but an ERROR was allowed in the
/// phase in which it came. MESSAGE, CHANGEROOM, FIGHT and
/// LOOT come from a started session only, START from one that has a
/// character and has not started, and a CHARACTER that gets through is
/// within the points to spend. No frame of a type that only the server
/// sends, and no PVPFIGHT, gets through.
pub proof fn lemma_admitted(phase: Phase, bytes: Seq<u8>)
    ensures
        match reaction(phase, bytes).event {
            Some(MessageView::Message { .. }) | Some(MessageView::ChangeRoom { .. }) | Some(
                MessageView::Fight,
            ) | Some(MessageView::Loot { .. }) => phase == Phase::Started,
            Some(MessageView::Start) => phase == Phase::Accepted,
            Some(MessageView::Character { attack, defense, regen, gold, current_room, .. }) => {
                &&& phase != Phase::Closed
                &&& affordable(attack, defense, regen)
                &&& gold == 0
                &&& current_room == 0
            },
            Some(MessageView::Leave) => phase != Phase::Closed,
            Some(MessageView::Error { .. }) => phase != Phase::Closed,
            Some(_) => false,
            None => phase == Phase::Closed,
        },
{
}

/// Whether `ty` is the type of a frame that only the server sends.
#[verifier::when_used_as_spec(spec_server_only)]
pub fn server_only(ty: u8) -> (b: bool)
    ensures
        b == spec_server_only(ty),
{
    ty == 7 || ty == 8 || ty == 9 || ty == 11 || ty == 13 || ty == 14
}

/// An ERROR event with what follows it.
fn complain(code: ErrorCode, text: &str, next: Next) -> (r: Reaction)
    ensures
        r@ == complaint(code, text@, next),
{
    Reaction { event: Some(Message::Error { error: code, message: String::from_str(text) }), next }
}

/// What a client is told that sends a frame of a type that only the server sends.
fn rebuke_for(ty: u8) -> (text: &'static str)
    ensures
        text@ == rebuke(ty),
{
    match ty {
        7 => "I am the one who knocks, dont't try me!",
        8 => "Accept this disconnect you heathen.",
        9 => "There isn't enough room here for the both of us pal.",
        11 => "Hey! That's my job!",
        13 => "Connect these hands, nice try!",
        _ => "Sorry no time traveling allowed!",
    }
}

/// Takes one frame from the client: `frame` holds the bytes that were read
/// for it, all of them if the connection did not break. Says what goes to
/// the game loop and whether to read on, and moves the session to its next
/// phase.
pub fn handle_client(session: &mut Session, frame: &[u8]) -> (r: Reaction)
    ensures
        r@ == reaction(old(session).phase(), frame@),
        final(session).phase() == next_phase(old(session).phase(), frame@),
{
    let now = session.phase;
    if now == Phase::Closed {
        return Reaction { event: None, next: Next::Stop };
    }
    if frame.len() > 0 && server_only(frame[0]) {
        session.phase = Phase::Closed;
        return complain(ErrorCode::Other, rebuke_for(frame[0]), Next::HalfClose);
    }
    match decode(frame) {
        Err(DecodeError::ShortRead) => {
            session.phase = Phase::Closed;
            Reaction { event: Some(Message::Leave), next: Next::Stop }
        },
        Err(DecodeError::BadType) => {
            if frame[0] == 0 {
                complain(ErrorCode::Other, "Unknown Message Type", Next::Continue)
            } else {
                session.phase = Phase::Closed;
                complain(ErrorCode::Other, "Unknown Message Type", Next::HalfClose)
            }
        },
        Err(DecodeError::BadUtf8) => {
            session.phase = Phase::Closed;
            complain(ErrorCode::Other, "Message text is not valid UTF-8!", Next::HalfClose)
        },
        Ok((m, _)) => match m {
            Message::Leave => {
                session.phase = Phase::Closed;
                Reaction { event: Some(Message::Leave), next: Next::Stop }
            },
            Message::PVPFight { .. } => complain(
                ErrorCode::NoPlayerCombat,
                "Player PVP is not allowed!",
                Next::Continue,
            ),
            Message::Start => {
                if now == Phase::Accepted {
                    session.phase = Phase::Started;
                    Reaction { event: Some(Message::Start), next: Next::Continue }
                } else if now == Phase::Started {
                    complain(ErrorCode::NotReady, "Character is already started!", Next::Continue)
                } else {
                    complain(
                        ErrorCode::NotReady,
                        "You must create a character first!",
                        Next::Continue,
                    )
                }
            },
            Message::Character {
                name,
                flags,
                attack,
                defense,
                regen,
                health,
                gold,
                current_room,
                description,
            } => {
                if attack as u32 + defense as u32 + regen as u32 > 40 {
                    complain(
                        ErrorCode::StatError,
                        "Total points exceeds initial points",
                        Next::Continue,
                    )
                } else {
                    if now == Phase::AwaitingCharacter {
                        session.phase = Phase::Accepted;
                    }
                    Reaction {
                        event: Some(
                            Message::Character {
                                name: if name.as_str().is_empty() {
                                    String::from_str("Default")
                                } else {
                                    name
                                },
                                flags: if flags == 0 || flags == 0xff {
                                    PLAYER_ACCEPTED
                                } else {
                                    flags
                                },
                                attack,
                                defense,
                                regen,
                                health: if health == 0 {
                                    20
                                } else {
                                    health
                                },
                                gold: 0,
                                current_room: 0,
                                description,
                            },
                        ),
                        next: Next::Continue,
                    }
                }
            },
            other => {
                if now == Phase::Started {
                    Reaction { event: Some(other), next: Next::Continue }
                } else {
                    complain(
                        ErrorCode::NotReady,
                        "You haven't started the game yet!",
                        Next::Continue,
                    )
                }
            },
        },
    }
}

/// What a new connection is told first: the version of the protocol, then
/// the rules of the game. Both go through the game loop, which writes them.
pub fn send_info(queue: &mut Vec<Message>, initial_points: u16, stat_limit: u16, description: String)
    ensures
        message_views(final(queue)@) == message_views(old(queue)@).push(
            MessageView::Version { major_rev: 2, minor_rev: 3, extensions: Seq::empty() },
        ).push(MessageView::Game { initial_points, stat_limit, description: description@ }),
{
    queue.push(Message::Version { major_rev: 2, minor_rev: 3, extensions: Vec::new() });
    queue.push(Message::Game { initial_points, stat_limit, description });
    assert(message_views(queue@) =~= message_views(old(queue)@).push(
        MessageView::Version { major_rev: 2, minor_rev: 3, extensions: Seq::empty() },
    ).push(MessageView::Game { initial_points, stat_limit, description: description@ }));
}

impl Session {
    /// The phase that the session is in.
    pub closed spec fn spec_phase(&self) -> Phase {
        self.phase
    }

    /// The phase that the session is in.
    #[verifier::when_used_as_spec(spec_phase)]
    pub fn phase(&self) -> (p: Phase)
        ensures
            p == self.spec_phase(),
    {
        self.phase
    }

    /// Opens the session of a new connection. The session awaits a
    /// character, and with it comes the greeting, VERSION and then GAME, for
    /// the game loop to write to the connection before the first frame of the
    /// client is read.
    pub fn open(description: String) -> (opened: (Session, Vec<Message>))
        ensures
            opened.0.phase() == Phase::AwaitingCharacter,
            message_views(opened.1@) == greeting(description@),
    {
        let mut queue: Vec<Message> = Vec::new();
        assert(message_views(queue@) =~= Seq::<MessageView>::empty());
        send_info(&mut queue, INITIAL_POINTS, STAT_LIMIT, description);
        assert(message_views(queue@) =~= greeting(description@));
        (Session { phase: Phase::AwaitingCharacter }, queue)
    }
}

} // verus!
