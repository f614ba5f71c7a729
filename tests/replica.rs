use redis_lite::parser::messages::RedisMessageType;
use redis_lite::replica::{handshake_next, handshake_start, HandshakeOutcome, HandshakeStep};

fn simple(s: &str) -> RedisMessageType {
    RedisMessageType::SimpleString(s.as_bytes().to_vec())
}

fn sent(outcome: HandshakeOutcome) -> (Vec<u8>, HandshakeStep) {
    match outcome {
        HandshakeOutcome::Send(request, step) => (request.encode(), step),
        HandshakeOutcome::Finished => panic!("finished too early"),
        HandshakeOutcome::Failed => panic!("failed"),
    }
}

#[test]
fn handshake_happy_path() {
    let (request, step) = handshake_start();
    assert_eq!(b"*1\r\n$4\r\nPING\r\n".to_vec(), request.encode());
    assert_eq!(HandshakeStep::AwaitPong, step);

    let (request, step) = sent(handshake_next(step, &simple("PONG"), 6380));
    assert_eq!(b"*3\r\n$8\r\nREPLCONF\r\n$14\r\nlistening-port\r\n$4\r\n6380\r\n".to_vec(), request);

    let (request, step) = sent(handshake_next(step, &simple("OK"), 6380));
    assert_eq!(b"*3\r\n$8\r\nREPLCONF\r\n$4\r\ncapa\r\n$6\r\npsync2\r\n".to_vec(), request);

    let (request, step) = sent(handshake_next(step, &simple("OK"), 6380));
    assert_eq!(b"*3\r\n$5\r\nPSYNC\r\n$1\r\n?\r\n$2\r\n-1\r\n".to_vec(), request);
    assert_eq!(HandshakeStep::AwaitFullResync, step);

    let reply = simple("FULLRESYNC 8371b4fb1155b71f4a04d3e1bc3e18c4a990aeeb 0");
    assert!(matches!(handshake_next(step, &reply, 6380), HandshakeOutcome::Finished));
}

#[test]
fn handshake_failures() {
    assert!(matches!(
        handshake_next(HandshakeStep::AwaitPong, &simple("OK"), 1),
        HandshakeOutcome::Failed
    ));
    assert!(matches!(
        handshake_next(HandshakeStep::AwaitPortOk, &RedisMessageType::Error(b"ERR".to_vec()), 1),
        HandshakeOutcome::Failed
    ));
    assert!(matches!(
        handshake_next(HandshakeStep::AwaitCapaOk, &RedisMessageType::BulkString(b"OK".to_vec()), 1),
        HandshakeOutcome::Failed
    ));
    assert!(matches!(
        handshake_next(HandshakeStep::AwaitFullResync, &simple("FULL"), 1),
        HandshakeOutcome::Failed
    ));
}
