//! Tests for the handshake, handoff, relay, keep-alive and lifecycle state
//! machines, ending in an end-to-end session scenario.
use demo_webrtc::keepalive::KeepAlive;
use demo_webrtc::lifecycle::{on_state_change, ConnectionState, ShutdownSignal};
use demo_webrtc::orchestrator::{OrchAction, OrchEvent, Orchestrator, Phase};
use demo_webrtc::relay::{lookup_outbound, OutboundTracks, RelayAction, RelayEvent, RelayPump};
use demo_webrtc::session::{SdpKind, SessionDescription};
use demo_webrtc::signal::{begin_offer, OfferIntake, SignalingExchange};
use demo_webrtc::TrackKind;

fn desc(kind: SdpKind, sdp: &str) -> SessionDescription {
    SessionDescription {
        kind,
        sdp: sdp.as_bytes().to_vec(),
    }
}

#[test]
fn exchange_single_slot() {
    let mut ex = SignalingExchange::new();
    assert!(ex.try_put_offer(desc(SdpKind::Offer, "a")).is_none());
    // second offer while the first is pending: refused, handed back intact
    let back = ex
        .try_put_offer(desc(SdpKind::Offer, "b"))
        .expect("slot must be busy");
    assert_eq!(back.sdp, b"b".to_vec());
    // the pending offer is unaffected and consumed exactly once
    let taken = ex.take_offer().expect("offer must be pending");
    assert_eq!(taken.sdp, b"a".to_vec());
    assert!(ex.take_offer().is_none());
    // same discipline on the answer slot
    assert!(ex.try_put_answer(b"ans".to_vec()).is_none());
    assert!(ex.try_put_answer(b"other".to_vec()).is_some());
    assert_eq!(ex.take_answer(), Some(b"ans".to_vec()));
    assert_eq!(ex.take_answer(), None);
}

#[test]
fn begin_offer_outcomes() {
    let mut ex = SignalingExchange::new();
    // invalid body: 500, exchange untouched
    match begin_offer(&mut ex, &b"###".to_vec()) {
        OfferIntake::Invalid(resp) => assert_eq!(resp.status, 500),
        _ => panic!("malformed body must be rejected"),
    }
    assert!(ex.offer.is_none());
    // valid body: staged
    let body = base64::encode("{\"type\":\"offer\",\"sdp\":\"v=0\"}").into_bytes();
    match begin_offer(&mut ex, &body) {
        OfferIntake::Staged => {}
        _ => panic!("valid body must be staged"),
    }
    // a second valid body while pending: busy, nothing corrupted
    match begin_offer(&mut ex, &body) {
        OfferIntake::SlotBusy(b) => assert_eq!(b.sdp, b"v=0".to_vec()),
        _ => panic!("second post must observe the single-slot invariant"),
    }
    assert_eq!(ex.take_offer().unwrap().sdp, b"v=0".to_vec());
}

#[test]
fn orchestrator_happy_path() {
    let mut orch = Orchestrator::new();
    assert_eq!(orch.phase, Phase::WaitingForOffer);
    let offer = desc(SdpKind::Offer, "o");
    match orch.step(OrchEvent::OfferReceived(offer)) {
        OrchAction::ApplyRemote(d) => assert_eq!(d.sdp, b"o".to_vec()),
        _ => panic!("offer must be applied"),
    }
    assert!(matches!(
        orch.step(OrchEvent::RemoteApplied(true)),
        OrchAction::CreateAnswer
    ));
    assert!(matches!(
        orch.step(OrchEvent::AnswerCreated(true)),
        OrchAction::AwaitGathering
    ));
    assert!(matches!(
        orch.step(OrchEvent::GatheringComplete),
        OrchAction::ReadLocalDescription
    ));
    let ans = desc(SdpKind::Answer, "a");
    match orch.step(OrchEvent::LocalDescription(Some(ans))) {
        OrchAction::PublishAnswer(v) => {
            let expected = base64::encode("{\"type\":\"answer\",\"sdp\":\"a\"}").into_bytes();
            assert_eq!(v, expected);
        }
        _ => panic!("answer must be published"),
    }
    assert_eq!(orch.phase, Phase::Done);
    // one-shot: further events are absorbed
    assert!(matches!(
        orch.step(OrchEvent::GatheringComplete),
        OrchAction::Ignore
    ));
    assert_eq!(orch.phase, Phase::Done);
}

#[test]
fn orchestrator_fatal_paths() {
    let mut orch = Orchestrator::new();
    orch.step(OrchEvent::OfferReceived(desc(SdpKind::Offer, "o")));
    assert!(matches!(
        orch.step(OrchEvent::RemoteApplied(false)),
        OrchAction::Abort
    ));
    assert_eq!(orch.phase, Phase::Failed);

    let mut orch2 = Orchestrator::new();
    orch2.step(OrchEvent::OfferReceived(desc(SdpKind::Offer, "o")));
    orch2.step(OrchEvent::RemoteApplied(true));
    orch2.step(OrchEvent::AnswerCreated(true));
    orch2.step(OrchEvent::GatheringComplete);
    // local description unexpectedly absent after gathering: explicit failure
    assert!(matches!(
        orch2.step(OrchEvent::LocalDescription(None)),
        OrchAction::Abort
    ));
    assert_eq!(orch2.phase, Phase::Failed);
}

#[test]
fn outbound_lookup_by_kind() {
    let t = OutboundTracks {
        audio: Some(0),
        video: Some(1),
    };
    assert_eq!(lookup_outbound(&t, TrackKind::Audio), Some(0));
    assert_eq!(lookup_outbound(&t, TrackKind::Video), Some(1));
    let missing = OutboundTracks {
        audio: None,
        video: Some(1),
    };
    assert_eq!(lookup_outbound(&missing, TrackKind::Audio), None);
}

#[test]
fn relay_preserves_order_and_isolates_failure() {
    let mut video = RelayPump::new(TrackKind::Video);
    let mut audio = RelayPump::new(TrackKind::Audio);
    let packets: Vec<Vec<u8>> = vec![b"p1".to_vec(), b"p2".to_vec(), b"p3".to_vec()];
    let mut written: Vec<Vec<u8>> = Vec::new();
    for p in &packets {
        match video.on_event(RelayEvent::Packet(p.clone())) {
            RelayAction::Forward(q) => written.push(q),
            _ => panic!("running pump must forward"),
        }
        assert!(matches!(video.on_event(RelayEvent::WriteOk), RelayAction::Idle));
    }
    assert_eq!(written, packets);
    // a write failure halts only this pump
    match video.on_event(RelayEvent::Packet(b"p4".to_vec())) {
        RelayAction::Forward(_) => {}
        _ => panic!("still running"),
    }
    assert!(matches!(
        video.on_event(RelayEvent::WriteFailed),
        RelayAction::Stop
    ));
    assert!(!video.running);
    assert!(matches!(
        video.on_event(RelayEvent::Packet(b"p5".to_vec())),
        RelayAction::Stop
    ));
    // the sibling audio pump is unaffected
    assert!(audio.running);
    assert!(matches!(
        audio.on_event(RelayEvent::Packet(b"a1".to_vec())),
        RelayAction::Forward(_)
    ));
}

#[test]
fn relay_stops_on_read_end() {
    let mut pump = RelayPump::new(TrackKind::Audio);
    assert!(matches!(
        pump.on_event(RelayEvent::ReadEnded),
        RelayAction::Stop
    ));
    assert!(!pump.running);
}

#[test]
fn keepalive_audio_never_emits() {
    let mut ka = KeepAlive::new(TrackKind::Audio, 7);
    for _ in 0..5 {
        assert!(ka.tick(true).is_none());
    }
}

#[test]
fn keepalive_video_one_per_tick_until_dead() {
    let mut ka = KeepAlive::new(TrackKind::Video, 42);
    for _ in 0..3 {
        let pkt = ka.tick(true).expect("live video ticks emit");
        assert_eq!(pkt.media_ssrc, 42);
        assert_eq!(pkt.sender_ssrc, 0);
    }
    // the handle no longer resolves: silence from this tick on
    assert!(ka.tick(false).is_none());
    assert!(ka.tick(true).is_none());
}

#[test]
fn keepalive_send_failure_stops_loop() {
    let mut ka = KeepAlive::new(TrackKind::Video, 1);
    assert!(ka.tick(true).is_some());
    ka.on_send_result(false);
    assert!(ka.tick(true).is_none());
}

#[test]
fn failed_reported_many_times_sends_once() {
    let mut sig = ShutdownSignal::new();
    let mut sends = 0;
    for _ in 0..4 {
        if on_state_change(&mut sig, ConnectionState::Failed) {
            sends += 1;
        }
    }
    assert_eq!(sends, 1);
    assert!(sig.occupied);
}

#[test]
fn non_failed_states_do_not_signal() {
    let mut sig = ShutdownSignal::new();
    for st in [
        ConnectionState::New,
        ConnectionState::Connecting,
        ConnectionState::Connected,
        ConnectionState::Disconnected,
        ConnectionState::Closed,
    ] {
        assert!(!on_state_change(&mut sig, st));
    }
    assert!(!sig.occupied);
    assert!(!sig.try_recv());
}

#[test]
fn end_to_end_session_scenario() {
    // client posts offer A
    let mut ex = SignalingExchange::new();
    let body = base64::encode("{\"type\":\"offer\",\"sdp\":\"A\"}").into_bytes();
    assert!(matches!(begin_offer(&mut ex, &body), OfferIntake::Staged));

    // the orchestrator applies it, creates answer B, gathers, publishes
    let mut orch = Orchestrator::new();
    let offer = ex.take_offer().expect("offer pending");
    assert_eq!(offer.sdp, b"A".to_vec());
    orch.step(OrchEvent::OfferReceived(offer));
    orch.step(OrchEvent::RemoteApplied(true));
    orch.step(OrchEvent::AnswerCreated(true));
    orch.step(OrchEvent::GatheringComplete);
    let answer = desc(SdpKind::Answer, "B");
    let encoded = match orch.step(OrchEvent::LocalDescription(Some(answer))) {
        OrchAction::PublishAnswer(v) => v,
        _ => panic!("answer must be published"),
    };
    assert!(ex.try_put_answer(encoded).is_none());

    // the HTTP side returns base64(B) with status 200
    let got = ex.take_answer().expect("answer pending");
    let resp = demo_webrtc::signal::respond_answer(got);
    assert_eq!(resp.status, 200);
    let decoded = base64::decode(&resp.body).expect("decodable");
    let back = demo_webrtc::json::parse_description(&decoded).expect("parses");
    assert_eq!(back.kind, SdpKind::Answer);
    assert_eq!(back.sdp, b"B".to_vec());

    // client streams video packets p1, p2, p3: relayed unchanged, in order
    let mut pump = RelayPump::new(TrackKind::Video);
    let mut ka = KeepAlive::new(TrackKind::Video, 99);
    let mut written: Vec<Vec<u8>> = Vec::new();
    for p in [b"p1".to_vec(), b"p2".to_vec(), b"p3".to_vec()] {
        match pump.on_event(RelayEvent::Packet(p)) {
            RelayAction::Forward(q) => written.push(q),
            _ => panic!("forward"),
        }
        pump.on_event(RelayEvent::WriteOk);
        // one loss-feedback packet per tick, tagged with the track's ssrc
        let pkt = ka.tick(true).expect("live video tick");
        assert_eq!(pkt.media_ssrc, 99);
    }
    assert_eq!(
        written,
        vec![b"p1".to_vec(), b"p2".to_vec(), b"p3".to_vec()]
    );

    // the client disconnects; streams end, state moves on, no shutdown send
    assert!(matches!(
        pump.on_event(RelayEvent::ReadEnded),
        RelayAction::Stop
    ));
    assert!(ka.tick(false).is_none());
    let mut sig = ShutdownSignal::new();
    assert!(!on_state_change(&mut sig, ConnectionState::Disconnected));
    assert!(!on_state_change(&mut sig, ConnectionState::Closed));
    // an interrupt, not the signal, ends the process in this scenario
    assert!(!sig.try_recv());
}
