//! The internal control protocol: arity-validated framed messages exchanged
//! by the registration, chunk-ingest and flow-control loops.
//!
//! The loops never share call stacks; they pass small ordered frame sequences
//! tagged with a verb. Decoding validates the field count against the verb's
//! expected arity and rejects malformed messages, distinguishing too few
//! fields from too many. An unrecognized verb on this internal,
//! non-adversarial bus is a programming error: callers must check
//! [`is_known_verb`] first and fail fast, as the decoder's precondition
//! leaves such frames out.

use vstd::prelude::*;
use crate::decimal::{dec_chars, dec_val, is_dec_digits, lemma_dec_round_trip, parse_u64,
    u64_to_dec};
use crate::error::Error;

verus! {

/// The socket flavours the agent wires together.
#[derive(Clone, Copy, Debug, PartialEq, Eq, Structural)]
pub enum SocketKind {
    Pair,
    Pub,
    Req,
    Rep,
    Dealer,
    Router,
    Push,
    Xsub,
    Sub,
    Pull,
    Xpub,
}

pub open spec fn spec_writeable(kind: SocketKind) -> bool {
    match kind {
        SocketKind::Pair => true,
        SocketKind::Pub => true,
        SocketKind::Req => true,
        SocketKind::Rep => true,
        SocketKind::Dealer => true,
        SocketKind::Router => true,
        SocketKind::Push => true,
        SocketKind::Xsub => true,
        SocketKind::Sub => false,
        SocketKind::Pull => false,
        SocketKind::Xpub => false,
    }
}

/// Whether an error reply may be pushed back down a socket of this kind, or
/// the rejection must stay local.
pub fn sock_is_writeable(kind: SocketKind) -> (r: bool)
    ensures
        r == spec_writeable(kind),
{
    match kind {
        SocketKind::Pair | SocketKind::Pub | SocketKind::Req | SocketKind::Rep
            | SocketKind::Dealer | SocketKind::Router | SocketKind::Push
            | SocketKind::Xsub => true,
        SocketKind::Sub | SocketKind::Pull | SocketKind::Xpub => false,
    }
}

/// The acceptance rule for a message of `size` frames against an expected
/// minimum and optional maximum.
pub open spec fn spec_expect_arity(size: nat, min: nat, max: Option<usize>) -> Result<(), Error> {
    if size < min {
        Err(Error::TooFewFrames)
    } else if max matches Some(m) && size > m {
        Err(Error::TooManyFrames)
    } else {
        Ok(())
    }
}

/// Helpers around receiving and validating framed messages.
pub struct Msg;

impl Msg {
    /// The arity gate of message reception: a message is accepted when it has
    /// at least `min` frames and, where a maximum is given, at most `max`.
    /// Rejection says which bound was broken.
    pub fn expect_arity(size: usize, min: usize, max: Option<usize>) -> (r: Result<(), Error>)
        ensures
            r == spec_expect_arity(size as nat, min as nat, max),
    {
        if size < min {
            Err(Error::TooFewFrames)
        } else {
            match max {
                Some(m) => if size > m {
                    Err(Error::TooManyFrames)
                } else {
                    Ok(())
                },
                None => Ok(()),
            }
        }
    }
}

/// The closed verb set the three loops exchange.
#[derive(Debug)]
pub enum ControlMsg {
    /// A chunk request wants a slot: `["QUEUE", path, index]`.
    Queue { path: String, index: u64 },
    /// One outstanding request was resolved: `["READY"]`.
    Ready,
    /// Terminal success for a transfer: `["DONE", path]`.
    Done { path: String },
    /// Terminal failure for a transfer: `["ERR", path, reason]`.
    Fail { path: String, reason: String },
}

/// The views of a frame list.
pub open spec fn frame_views(frames: Seq<String>) -> Seq<Seq<char>> {
    Seq::new(frames.len(), |i: int| frames[i]@)
}

/// The wire frames of a control message.
pub open spec fn spec_frames(m: ControlMsg) -> Seq<Seq<char>> {
    match m {
        ControlMsg::Queue { path, index } => seq!["QUEUE"@, path@, dec_chars(index as nat)],
        ControlMsg::Ready => seq!["READY"@],
        ControlMsg::Done { path } => seq!["DONE"@, path@],
        ControlMsg::Fail { path, reason } => seq!["ERR"@, path@, reason@],
    }
}

pub open spec fn known_verb(v: Seq<char>) -> bool {
    v == "QUEUE"@ || v == "READY"@ || v == "DONE"@ || v == "ERR"@
}

/// Every verb carries an exact field count.
pub open spec fn verb_arity(v: Seq<char>) -> nat {
    if v == "READY"@ {
        1
    } else if v == "DONE"@ {
        2
    } else {
        3
    }
}

/// A decoded message agrees with its frames field by field.
pub open spec fn parse_ok(f: Seq<Seq<char>>, m: ControlMsg) -> bool {
    match m {
        ControlMsg::Queue { path, index } => f.len() == 3 && f[0] == "QUEUE"@ && path@ == f[1]
            && is_dec_digits(f[2]) && index as nat == dec_val(f[2]),
        ControlMsg::Ready => f.len() == 1 && f[0] == "READY"@,
        ControlMsg::Done { path } => f.len() == 2 && f[0] == "DONE"@ && path@ == f[1],
        ControlMsg::Fail { path, reason } => f.len() == 3 && f[0] == "ERR"@ && path@ == f[1]
            && reason@ == f[2],
    }
}

/// Exactly when and why a frame list is rejected.
pub open spec fn parse_err(f: Seq<Seq<char>>, e: Error) -> bool {
    if f.len() == 0 {
        e == Error::TooFewFrames
    } else if f.len() < verb_arity(f[0]) {
        e == Error::TooFewFrames
    } else if f.len() > verb_arity(f[0]) {
        e == Error::TooManyFrames
    } else {
        f[0] == "QUEUE"@ && !(is_dec_digits(f[2]) && dec_val(f[2]) <= u64::MAX)
            && e == Error::InvalidNumber
    }
}

/// The four verbs are pairwise distinct frame values.
pub proof fn lemma_verbs_distinct()
    ensures
        "QUEUE"@ != "READY"@,
        "QUEUE"@ != "DONE"@,
        "QUEUE"@ != "ERR"@,
        "READY"@ != "DONE"@,
        "READY"@ != "ERR"@,
        "DONE"@ != "ERR"@,
{
    reveal_strlit("QUEUE");
    reveal_strlit("READY");
    reveal_strlit("DONE");
    reveal_strlit("ERR");
    assert("QUEUE"@[0] == 'Q' && "READY"@[0] == 'R' && "DONE"@[0] == 'D' && "ERR"@[0] == 'E');
}

fn str_eq(a: &String, b: &str) -> (r: bool)
    ensures
        r == (a@ == b@),
{
    let owned: String = b.to_owned();
    a.eq(&owned)
}

/// Whether a verb frame belongs to the protocol. A frame list whose head
/// fails this test must not reach [`parse_control`]: on the internal bus it
/// marks a programming error, to be failed fast.
pub fn is_known_verb(v: &String) -> (r: bool)
    ensures
        r == known_verb(v@),
{
    str_eq(v, "QUEUE") || str_eq(v, "READY") || str_eq(v, "DONE") || str_eq(v, "ERR")
}

/// Decode one message off the internal bus, validating the verb's arity and
/// the chunk-index number without touching any shared state.
pub fn parse_control(frames: &Vec<String>) -> (r: Result<ControlMsg, Error>)
    requires
        frames@.len() == 0 || known_verb(frames@[0]@),
    ensures
        match r {
            Ok(m) => parse_ok(frame_views(frames@), m),
            Err(e) => parse_err(frame_views(frames@), e),
        },
{
    if frames.len() == 0 {
        return Err(Error::TooFewFrames);
    }
    let verb = &frames[0];
    if str_eq(verb, "READY") {
        match Msg::expect_arity(frames.len(), 1, Some(1)) {
            Ok(()) => Ok(ControlMsg::Ready),
            Err(e) => Err(e),
        }
    } else if str_eq(verb, "DONE") {
        match Msg::expect_arity(frames.len(), 2, Some(2)) {
            Ok(()) => Ok(ControlMsg::Done { path: frames[1].clone() }),
            Err(e) => Err(e),
        }
    } else if str_eq(verb, "QUEUE") {
        proof {
            lemma_verbs_distinct();
        }
        match Msg::expect_arity(frames.len(), 3, Some(3)) {
            Ok(()) => match parse_u64(frames[2].as_str()) {
                Some(index) => Ok(ControlMsg::Queue { path: frames[1].clone(), index }),
                None => Err(Error::InvalidNumber),
            },
            Err(e) => Err(e),
        }
    } else {
        proof {
            lemma_verbs_distinct();
        }
        match Msg::expect_arity(frames.len(), 3, Some(3)) {
            Ok(()) => Ok(ControlMsg::Fail {
                path: frames[1].clone(),
                reason: frames[2].clone(),
            }),
            Err(e) => Err(e),
        }
    }
}

/// Encode a control message into its wire frames.
pub fn encode_control(m: &ControlMsg) -> (r: Vec<String>)
    ensures
        frame_views(r@) == spec_frames(*m),
{
    let mut frames: Vec<String> = Vec::new();
    match m {
        ControlMsg::Queue { path, index } => {
            frames.push("QUEUE".to_owned());
            frames.push(path.clone());
            frames.push(u64_to_dec(*index));
        },
        ControlMsg::Ready => {
            frames.push("READY".to_owned());
        },
        ControlMsg::Done { path } => {
            frames.push("DONE".to_owned());
            frames.push(path.clone());
        },
        ControlMsg::Fail { path, reason } => {
            frames.push("ERR".to_owned());
            frames.push(path.clone());
            frames.push(reason.clone());
        },
    }
    proof {
        assert(frame_views(frames@) =~= spec_frames(*m));
    }
    frames
}

/// Round trip: the frames a message encodes to are accepted by the decoder's
/// contract, and they name that same message.
pub proof fn lemma_control_round_trip(m: ControlMsg)
    ensures
        known_verb(spec_frames(m)[0]),
        parse_ok(spec_frames(m), m),
{
    match m {
        ControlMsg::Queue { path, index } => {
            lemma_dec_round_trip(index as nat);
            lemma_verbs_distinct();
        },
        ControlMsg::Ready => {},
        ControlMsg::Done { path } => {
            lemma_verbs_distinct();
        },
        ControlMsg::Fail { path, reason } => {
            lemma_verbs_distinct();
        },
    }
}

} // verus!
