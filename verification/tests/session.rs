use blip_caption::error::CaptionError;
use blip_caption::session::{
    generation_frames, GenerationWriter, InboundFrame, OutboundFrame, Session, SessionCommand,
    SessionState,
};

#[test]
fn upgrade_opens_and_probes() {
    let mut session = Session::new();
    assert_eq!(session.current_state(), SessionState::Connecting);
    let probe = session.upgrade();
    assert!(matches!(probe, OutboundFrame::Ping(_)));
    assert_eq!(session.current_state(), SessionState::Open);
}

#[test]
fn binary_frame_starts_a_caption() {
    let mut session = Session::new();
    session.upgrade();
    let cmd = session.on_frame(InboundFrame::Binary(vec![9, 9, 9]));
    match cmd {
        SessionCommand::StartCaption(bytes) => assert_eq!(bytes, vec![9, 9, 9]),
        _ => panic!("expected a caption to start"),
    }
    assert_eq!(session.current_state(), SessionState::Streaming);
}

#[test]
fn second_binary_frame_waits_for_the_current_generation() {
    let mut session = Session::new();
    session.upgrade();
    session.on_frame(InboundFrame::Binary(vec![1]));
    let cmd = session.on_frame(InboundFrame::Binary(vec![2]));
    assert!(matches!(cmd, SessionCommand::Ignore));
    assert_eq!(session.current_state(), SessionState::Streaming);
    session.complete_generation();
    assert_eq!(session.current_state(), SessionState::Open);
    let cmd = session.on_frame(InboundFrame::Binary(vec![3]));
    assert!(matches!(cmd, SessionCommand::StartCaption(_)));
}

#[test]
fn liveness_and_text_frames_are_observed_only() {
    let mut session = Session::new();
    session.upgrade();
    for frame in [
        InboundFrame::Text(String::from("hi")),
        InboundFrame::Ping(vec![1]),
        InboundFrame::Pong(vec![1, 2, 3]),
    ] {
        let cmd = session.on_frame(frame);
        assert!(matches!(cmd, SessionCommand::Ignore));
        assert_eq!(session.current_state(), SessionState::Open);
    }
}

#[test]
fn close_frame_tears_down_gracefully() {
    let mut session = Session::new();
    session.upgrade();
    let cmd = session.on_frame(InboundFrame::Close(Some((1000, String::from("bye")))));
    assert!(matches!(cmd, SessionCommand::Disconnect));
    assert_eq!(session.current_state(), SessionState::Closing);
    session.finalize_close();
    assert_eq!(session.current_state(), SessionState::Closed);
}

#[test]
fn transport_failure_mid_generation_silences_the_session() {
    let mut session = Session::new();
    session.upgrade();
    session.on_frame(InboundFrame::Binary(vec![1, 2]));
    assert_eq!(session.current_state(), SessionState::Streaming);
    // the peer vanished mid-generation: no crash, no further output
    session.fail_transport();
    assert_eq!(session.current_state(), SessionState::Closed);
    let cmd = session.on_frame(InboundFrame::Binary(vec![3]));
    assert!(matches!(cmd, SessionCommand::Ignore));
    assert_eq!(session.current_state(), SessionState::Closed);
    let cmd = session.on_frame(InboundFrame::Text(String::from("still there?")));
    assert!(matches!(cmd, SessionCommand::Ignore));
    assert_eq!(session.current_state(), SessionState::Closed);
}

#[test]
fn close_mid_generation_stops_captioning() {
    let mut session = Session::new();
    session.upgrade();
    session.on_frame(InboundFrame::Binary(vec![1]));
    let cmd = session.on_frame(InboundFrame::Close(None));
    assert!(matches!(cmd, SessionCommand::Disconnect));
    assert_eq!(session.current_state(), SessionState::Closing);
}

#[test]
fn generation_stream_ends_in_exactly_one_sentinel() {
    let fragments = vec![
        String::from("a "),
        String::new(),
        String::from("small"),
    ];
    let rest = Some(String::from(" dog"));
    let frames = generation_frames(&fragments, &rest);
    assert_eq!(frames.len(), 4);
    let sentinels = frames
        .iter()
        .filter(|f| matches!(f, OutboundFrame::EndOfMessage))
        .count();
    assert_eq!(sentinels, 1);
    assert!(matches!(frames.last().unwrap(), OutboundFrame::EndOfMessage));
    let texts: Vec<&str> = frames
        .iter()
        .filter_map(|f| match f {
            OutboundFrame::Fragment(s) => Some(s.as_str()),
            _ => None,
        })
        .collect();
    assert_eq!(texts, vec!["a ", "small", " dog"]);
    assert_eq!(texts.concat(), "a small dog");
}

#[test]
fn streaming_writer_hands_out_frames_in_order_and_seals_last() {
    let mut writer = GenerationWriter::new();
    let first = writer.fragment(String::from("a "));
    match first {
        OutboundFrame::Fragment(s) => assert_eq!(s, "a "),
        _ => panic!("expected a fragment frame"),
    }
    let second = writer.fragment(String::from("cat"));
    assert!(matches!(second, OutboundFrame::Fragment(_)));
    let sentinel = writer.seal();
    assert!(matches!(sentinel, OutboundFrame::EndOfMessage));
}

#[test]
fn empty_generation_still_signals_completion() {
    let fragments: Vec<String> = Vec::new();
    let frames = generation_frames(&fragments, &None);
    assert_eq!(frames.len(), 1);
    assert!(matches!(frames[0], OutboundFrame::EndOfMessage));
}

#[test]
fn error_descriptions_name_each_failure() {
    for err in [
        CaptionError::DecodeError,
        CaptionError::WeightLoadError,
        CaptionError::TokenizerLoadError,
        CaptionError::InferenceError,
        CaptionError::TransportError,
    ] {
        assert!(!err.describe().is_empty());
    }
}
