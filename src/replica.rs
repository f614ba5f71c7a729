//! The follower's handshake with its master, as a state machine: each reply
//! from the master decides the next request, the end, or a failure. The
//! caller does the sending and receiving.
use vstd::prelude::*;
use vstd::string::StringSliceAdditionalSpecFns;

use crate::parser::messages::{RedisMessageType, RespValue};
use crate::parser::numbers::{nat_digits, push_decimal};
use crate::utils::bytes::text;

verus! {

/// The reply the handshake waits for.
#[derive(Debug, Clone, Copy, PartialEq, Eq, Structural)]
pub enum HandshakeStep {
    /// `PONG` to `PING`.
    AwaitPong,
    /// `OK` to `REPLCONF listening-port <port>`.
    AwaitPortOk,
    /// `OK` to `REPLCONF capa psync2`.
    AwaitCapaOk,
    /// `FULLRESYNC ...` to `PSYNC ? -1`.
    AwaitFullResync,
}

/// What follows a reply.
pub enum HandshakeOutcome {
    /// Send this request, then wait as the step says.
    Send(RedisMessageType, HandshakeStep),
    /// The master accepted the follower.
    Finished,
    /// The master answered otherwise than the handshake expects.
    Failed,
}

/// The request made of `words`, each a bulk string.
pub open spec fn request_of(words: Seq<Seq<u8>>) -> RespValue {
    RespValue::Array(words.map_values(|w: Seq<u8>| RespValue::BulkString(w)))
}

/// The reply is a simple string that starts with `prefix`.
pub open spec fn simple_reply_starts_with(reply: RespValue, prefix: Seq<u8>) -> bool {
    reply is SimpleString && reply->SimpleString_0.len() >= prefix.len()
        && reply->SimpleString_0.subrange(0, prefix.len() as int) == prefix
}

/// The outcome of `reply` at `step`, as values: the next request and step,
/// `None` once finished; `Err` on failure.
pub open spec fn spec_handshake_next(step: HandshakeStep, reply: RespValue, listening_port: u16) -> Result<
    Option<(RespValue, HandshakeStep)>,
    (),
> {
    match step {
        HandshakeStep::AwaitPong => if reply == RespValue::SimpleString("PONG".spec_bytes()) {
            Ok(
                Some(
                    (
                        request_of(
                            seq![
                                "REPLCONF".spec_bytes(),
                                "listening-port".spec_bytes(),
                                nat_digits(listening_port as nat),
                            ],
                        ),
                        HandshakeStep::AwaitPortOk,
                    ),
                ),
            )
        } else {
            Err(())
        },
        HandshakeStep::AwaitPortOk => if reply == RespValue::SimpleString("OK".spec_bytes()) {
            Ok(
                Some(
                    (
                        request_of(
                            seq!["REPLCONF".spec_bytes(), "capa".spec_bytes(), "psync2".spec_bytes()],
                        ),
                        HandshakeStep::AwaitCapaOk,
                    ),
                ),
            )
        } else {
            Err(())
        },
        HandshakeStep::AwaitCapaOk => if reply == RespValue::SimpleString("OK".spec_bytes()) {
            Ok(
                Some(
                    (
                        request_of(seq!["PSYNC".spec_bytes(), "?".spec_bytes(), "-1".spec_bytes()]),
                        HandshakeStep::AwaitFullResync,
                    ),
                ),
            )
        } else {
            Err(())
        },
        HandshakeStep::AwaitFullResync => if simple_reply_starts_with(
            reply,
            "FULLRESYNC".spec_bytes(),
        ) {
            Ok(None)
        } else {
            Err(())
        },
    }
}

fn request(words: Vec<Vec<u8>>) -> (r: RedisMessageType)
    ensures
        r@ == request_of(words@.map_values(|w: Vec<u8>| w@)),
{
    let ghost all = words@.map_values(|w: Vec<u8>| w@);
    let mut words = words;
    let mut items: Vec<RedisMessageType> = Vec::new();
    while words.len() > 0
        invariant
            items@.len() + words@.len() == all.len(),
            forall|j: int| 0 <= j < words@.len() ==> #[trigger] words@[j]@ == all[items@.len() + j],
            forall|j: int| 0 <= j < items@.len() ==> #[trigger] items@[j]@ == RespValue::BulkString(all[j]),
        decreases words.len(),
    {
        let ghost k = items@.len();
        let ghost before = words@;
        let w = words.remove(0);
        assert(w@ == all[k as int]);
        assert forall|j: int| 0 <= j < words@.len() implies #[trigger] words@[j]@ == all[items@.len() + 1 + j] by {
            assert(words@[j] == before[j + 1]);
        }
        items.push(RedisMessageType::BulkString(w));
    }
    let r = RedisMessageType::Array(items);
    assert forall|j: int| 0 <= j < all.len() implies #[trigger] r@->Array_0[j] == RespValue::BulkString(all[j]) by {
        assert(r@->Array_0[j] == items@[j]@);
    }
    assert(r@->Array_0 =~= all.map_values(|w: Seq<u8>| RespValue::BulkString(w)));
    r
}

fn starts_with(a: &[u8], prefix: &str) -> (r: bool)
    ensures
        r == (a@.len() >= prefix.spec_bytes().len() && a@.subrange(0, prefix.spec_bytes().len() as int)
            == prefix.spec_bytes()),
{
    let p = prefix.as_bytes();
    if a.len() < p.len() {
        return false;
    }
    let mut i: usize = 0;
    while i < p.len()
        invariant
            i <= p@.len(),
            p@.len() <= a@.len(),
            p@ == prefix.spec_bytes(),
            forall|j: int| 0 <= j < i ==> a@[j] == p@[j],
        decreases p.len() - i,
    {
        if a[i] != p[i] {
            assert(a@.subrange(0, p@.len() as int)[i as int] != p@[i as int]);
            return false;
        }
        i = i + 1;
    }
    assert(a@.subrange(0, p@.len() as int) =~= p@);
    true
}

fn is_simple(reply: &RedisMessageType, expected: &str) -> (r: bool)
    ensures
        r == (reply@ == RespValue::SimpleString(expected.spec_bytes())),
{
    match reply {
        RedisMessageType::SimpleString(s) => {
            let e = expected.as_bytes();
            if s.len() != e.len() {
                return false;
            }
            let r = starts_with(s.as_slice(), expected);
            assert(s@ =~= s@.subrange(0, e@.len() as int));
            r
        },
        _ => false,
    }
}

/// The first request of the handshake, `PING`, and the step that follows.
pub fn handshake_start() -> (r: (RedisMessageType, HandshakeStep))
    ensures
        r.0@ == request_of(seq!["PING".spec_bytes()]),
        r.1 == HandshakeStep::AwaitPong,
{
    let words = vec![text("PING")];
    assert(words@.map_values(|w: Vec<u8>| w@) =~= seq!["PING".spec_bytes()]);
    (request(words), HandshakeStep::AwaitPong)
}

/// What follows the master's `reply` at `step`. `listening_port` is this
/// server's own port, which the second request announces.
pub fn handshake_next(step: HandshakeStep, reply: &RedisMessageType, listening_port: u16) -> (r:
    HandshakeOutcome)
    ensures
        match spec_handshake_next(step, reply@, listening_port) {
            Ok(Some((req, next))) => r matches HandshakeOutcome::Send(m, s) && m@ == req && s == next,
            Ok(None) => r is Finished,
            Err(_) => r is Failed,
        },
{
    match step {
        HandshakeStep::AwaitPong => {
            if !is_simple(reply, "PONG") {
                return HandshakeOutcome::Failed;
            }
            let mut port: Vec<u8> = Vec::new();
            push_decimal(&mut port, listening_port as u64);
            let words = vec![text("REPLCONF"), text("listening-port"), port];
            let ghost w = seq!["REPLCONF".spec_bytes(), "listening-port".spec_bytes(), nat_digits(listening_port as nat)];
            assert(words@.map_values(|w: Vec<u8>| w@) =~= w);
            HandshakeOutcome::Send(request(words), HandshakeStep::AwaitPortOk)
        },
        HandshakeStep::AwaitPortOk => {
            if !is_simple(reply, "OK") {
                return HandshakeOutcome::Failed;
            }
            let words = vec![text("REPLCONF"), text("capa"), text("psync2")];
            let ghost w = seq!["REPLCONF".spec_bytes(), "capa".spec_bytes(), "psync2".spec_bytes()];
            assert(words@.map_values(|w: Vec<u8>| w@) =~= w);
            HandshakeOutcome::Send(request(words), HandshakeStep::AwaitCapaOk)
        },
        HandshakeStep::AwaitCapaOk => {
            if !is_simple(reply, "OK") {
                return HandshakeOutcome::Failed;
            }
            let words = vec![text("PSYNC"), text("?"), text("-1")];
            let ghost w = seq!["PSYNC".spec_bytes(), "?".spec_bytes(), "-1".spec_bytes()];
            assert(words@.map_values(|w: Vec<u8>| w@) =~= w);
            HandshakeOutcome::Send(request(words), HandshakeStep::AwaitFullResync)
        },
        HandshakeStep::AwaitFullResync => {
            match reply {
                RedisMessageType::SimpleString(s) => {
                    if starts_with(s.as_slice(), "FULLRESYNC") {
                        HandshakeOutcome::Finished
                    } else {
                        HandshakeOutcome::Failed
                    }
                },
                _ => HandshakeOutcome::Failed,
            }
        },
    }
}

} // verus!
