use std::collections::VecDeque;

use mintymacks::codec::{encode, GoCommand, GuiCommand, PositionBase};
use mintymacks::decode::decode;
use mintymacks::incoming::EngineMessage;
use mintymacks::interleave::{InterleaveAction, InterleaveEvent, Interleaver, Until};
use mintymacks::search::{Search, SearchAction, SearchEvent, SearchRequest};

fn sent_line(a: InterleaveAction) -> Option<String> {
    match a {
        InterleaveAction::Send(c) => Some(encode(&c)),
        _ => None,
    }
}

#[test]
fn interleaver_sends_queue_in_order() {
    let queue: VecDeque<GuiCommand> = VecDeque::from([
        GuiCommand::NewGame,
        GuiCommand::IsReady,
        GuiCommand::Go(GoCommand::MoveTime(10)),
    ]);
    let mut il = Interleaver::new(queue, Until::Expiry);
    let mut sent = vec![];
    for ev in [
        InterleaveEvent::Writable,
        InterleaveEvent::Received(decode("info depth 1")),
        InterleaveEvent::Writable,
        InterleaveEvent::Received(decode("ready-ack")),
        InterleaveEvent::Writable,
        InterleaveEvent::Writable,
    ] {
        if let Some(l) = sent_line(il.step(ev)) {
            sent.push(l);
        }
    }
    assert_eq!(sent, vec!["newgame\n", "isready\n", "go movetime 10\n"]);
    assert_eq!(il.received.len(), 2);
    assert!(!il.is_finished());
    assert!(matches!(il.step(InterleaveEvent::Expired), InterleaveAction::Finish));
    assert!(il.is_finished());
    assert!(matches!(il.step(InterleaveEvent::Writable), InterleaveAction::Finish));
}

#[test]
fn interleaver_stops_at_ready_ack() {
    let queue = VecDeque::from([GuiCommand::NewGame, GuiCommand::IsReady]);
    let mut il = Interleaver::new(queue, Until::ReadyAck);
    assert!(matches!(il.step(InterleaveEvent::Writable), InterleaveAction::Send(GuiCommand::NewGame)));
    assert!(matches!(il.step(InterleaveEvent::Writable), InterleaveAction::Send(GuiCommand::IsReady)));
    assert!(matches!(il.step(InterleaveEvent::Writable), InterleaveAction::Wait));
    assert!(matches!(il.step(InterleaveEvent::Received(decode("bogus"))), InterleaveAction::Wait));
    assert!(matches!(il.step(InterleaveEvent::Received(decode("ready-ack"))), InterleaveAction::Finish));
    assert!(matches!(il.received.last(), Some(EngineMessage::ReadyAck)));
    assert_eq!(il.received.len(), 2);
}

#[test]
fn interleaver_stops_at_handshake_complete() {
    let mut il = Interleaver::new(VecDeque::from([GuiCommand::Identify]), Until::HandshakeComplete);
    assert_eq!(sent_line(il.step(InterleaveEvent::Writable)), Some("identify\n".to_string()));
    assert!(matches!(il.step(InterleaveEvent::Received(decode("id name=X"))), InterleaveAction::Wait));
    assert!(matches!(
        il.step(InterleaveEvent::Received(decode("handshake-complete"))),
        InterleaveAction::Finish
    ));
}

fn request(soft: u64) -> Search {
    Search::start(SearchRequest {
        base: PositionBase::StartPos,
        moves: vec!["e2e4".to_string()],
        soft_budget_ms: soft,
    })
}

fn drain(search: &mut Search, sent: &mut Vec<String>) {
    loop {
        match search.step(SearchEvent::Writable) {
            SearchAction::Send(c) => sent.push(encode(&c)),
            _ => break,
        }
    }
}

#[test]
fn search_answered_early_resolves_at_once() {
    let mut s = request(1000);
    let mut sent = vec![];
    drain(&mut s, &mut sent);
    assert_eq!(sent, vec!["position startpos moves e2e4\n", "go infinite\n"]);
    assert_eq!(s.poll_interval_ms(), 100);
    assert!(matches!(s.step(SearchEvent::Tick(100)), SearchAction::Wait));
    assert!(matches!(s.step(SearchEvent::Tick(200)), SearchAction::Wait));
    match s.step(SearchEvent::Received(decode("bestmove e2e4 ponder e7e5"))) {
        SearchAction::Resolve(Some(bm)) => {
            assert_eq!(bm.best, "e2e4");
            assert_eq!(bm.ponder, Some("e7e5".to_string()));
        }
        _ => panic!("expected the best move"),
    }
    assert!(s.is_resolved());
    drain(&mut s, &mut sent);
    assert_eq!(sent.len(), 2);
}

#[test]
fn search_without_answer_stops_once_then_gives_up() {
    let mut s = request(500);
    let mut sent = vec![];
    let mut result = None;
    let mut t = 0;
    while result.is_none() {
        drain(&mut s, &mut sent);
        t += s.poll_interval_ms();
        match s.step(SearchEvent::Received(decode("info depth 3"))) {
            SearchAction::Wait => {}
            _ => panic!("info lines do not end a search"),
        }
        if let SearchAction::Resolve(r) = s.step(SearchEvent::Tick(t)) {
            result = Some((t, r.is_none()));
        }
    }
    assert_eq!(result, Some((1050, true)));
    assert_eq!(sent, vec!["position startpos moves e2e4\n", "go infinite\n", "stop\n"]);
}

#[test]
fn search_stop_is_queued_just_past_soft_budget() {
    let mut s = request(500);
    let mut sent = vec![];
    drain(&mut s, &mut sent);
    assert!(matches!(s.step(SearchEvent::Tick(500)), SearchAction::Wait));
    drain(&mut s, &mut sent);
    assert_eq!(sent.len(), 2);
    assert!(matches!(s.step(SearchEvent::Tick(501)), SearchAction::Wait));
    assert!(matches!(s.step(SearchEvent::Tick(700)), SearchAction::Wait));
    drain(&mut s, &mut sent);
    assert_eq!(sent[2], "stop\n");
    assert_eq!(sent.len(), 3);
    assert!(matches!(s.step(SearchEvent::Tick(1000)), SearchAction::Wait));
    assert!(matches!(s.step(SearchEvent::Tick(1001)), SearchAction::Resolve(None)));
    assert!(matches!(
        s.step(SearchEvent::Received(decode("bestmove a2a3"))),
        SearchAction::Wait
    ));
}

#[test]
fn search_answer_after_stop_still_counts() {
    let mut s = request(100);
    assert!(matches!(s.step(SearchEvent::Tick(150)), SearchAction::Wait));
    match s.step(SearchEvent::Received(decode("bestmove d2d4"))) {
        SearchAction::Resolve(Some(bm)) => assert_eq!(bm.best, "d2d4"),
        _ => panic!("expected the best move"),
    }
}

#[test]
fn search_poll_interval_is_at_least_one_millisecond() {
    assert_eq!(request(5).poll_interval_ms(), 1);
    assert_eq!(request(0).poll_interval_ms(), 1);
    assert_eq!(request(12345).poll_interval_ms(), 1234);
}
