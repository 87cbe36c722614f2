use camera_stream::json::{find_name, read_document, Document, Field, Item, Position, Record};
use camera_stream::rtc::signaling::{
    begin_with_offer, handle_message, Ending, Exchange, Outcome, Step,
};
use camera_stream::signal::{IceCandidateInit, Signal, SignalError};

const SDP: &str = "v=0\r\no=- 1 2 IN IP4 127.0.0.1\r\ns=-\r\nt=0 0\r\n";

fn candidate() -> IceCandidateInit {
    IceCandidateInit {
        candidate: "candidate:1 1 udp 1 10.0.0.1 5000 typ host".to_owned(),
        sdp_mid: Some(String::new()),
        sdp_mline_index: Some(0),
        username_fragment: None,
    }
}

fn error_of(raw: &str) -> SignalError {
    match Signal::from_json(raw) {
        Ok(signal) => panic!("{:?}", signal),
        Err(e) => e,
    }
}

fn json_string(s: &str) -> String {
    serde_json::to_string(s).unwrap()
}

#[test]
fn answers_have_the_documented_text() {
    let signal = Signal::Answer { sdp: "v=0\r\n\"x\"".to_owned() };
    assert_eq!(signal.to_json(), r#"{"type":"answer","sdp":"v=0\r\n\"x\""}"#);
    let signal = Signal::Offer { sdp: "s".to_owned() };
    assert_eq!(signal.to_json(), r#"{"type":"offer","sdp":"s"}"#);
}

#[test]
fn candidates_have_the_documented_text() {
    let signal = Signal::Candidate { candidate: candidate() };
    assert_eq!(
        signal.to_json(),
        r#"{"type":"candidate","candidate":"candidate:1 1 udp 1 10.0.0.1 5000 typ host","sdpMid":"","sdpMLineIndex":0}"#
    );
    let bare = IceCandidateInit {
        candidate: "c".to_owned(),
        sdp_mid: None,
        sdp_mline_index: None,
        username_fragment: Some("uf".to_owned()),
    };
    assert_eq!(
        Signal::Candidate { candidate: bare }.to_json(),
        r#"{"type":"candidate","candidate":"c","sdpMid":null,"sdpMLineIndex":null,"usernameFragment":"uf"}"#
    );
}

#[test]
fn messages_survive_the_wire() {
    let sdp = "line\r\n\u{1}\u{7f}\u{2028}é\u{1f600}\\\"/";
    match Signal::from_json(&Signal::Offer { sdp: sdp.to_owned() }.to_json()) {
        Ok(Signal::Offer { sdp: got }) => assert_eq!(got, sdp),
        other => panic!("{:?}", other),
    }
    match Signal::from_json(&Signal::Answer { sdp: sdp.to_owned() }.to_json()) {
        Ok(Signal::Answer { sdp: got }) => assert_eq!(got, sdp),
        other => panic!("{:?}", other),
    }
    match Signal::from_json(&Signal::Candidate { candidate: candidate() }.to_json()) {
        Ok(Signal::Candidate { candidate: got }) => {
            assert_eq!(got.candidate, candidate().candidate);
            assert_eq!(got.sdp_mid, Some(String::new()));
            assert_eq!(got.sdp_mline_index, Some(0));
            assert_eq!(got.username_fragment, None);
        }
        other => panic!("{:?}", other),
    }
}

#[test]
fn browser_messages_are_read() {
    let raw = r#" {"type": "candidate", "candidate": "c", "sdpMid": "video", "sdpMLineIndex": 65535, "usernameFragment": null, "extra": [1]} "#;
    match Signal::from_json(raw) {
        Ok(Signal::Candidate { candidate: got }) => {
            assert_eq!(got.candidate, "c");
            assert_eq!(got.sdp_mid, Some("video".to_owned()));
            assert_eq!(got.sdp_mline_index, Some(65535));
            assert_eq!(got.username_fragment, None);
        }
        other => panic!("{:?}", other),
    }
    match Signal::from_json(r#"{"sdp":"x","type":"offer"}"#) {
        Ok(Signal::Offer { sdp }) => assert_eq!(sdp, "x"),
        other => panic!("{:?}", other),
    }
}

fn candidate_in(raw: &str) -> IceCandidateInit {
    match Signal::from_json(raw) {
        Ok(Signal::Candidate { candidate }) => candidate,
        other => panic!("{:?}", other),
    }
}

#[test]
fn whole_candidates_are_read() {
    for raw in [
        r#"{"type":"candidate","candidate":{"candidate":"c","sdpMid":"m","sdpMLineIndex":1}}"#,
        r#"{"type":"candidate","candidate":["c","m",1,null],"sdpMid":0,"sdpMid":0}"#,
        r#"["candidate",{"candidate":"c","sdpMid":"m","sdpMLineIndex":1,"x":{"y":[]}}]"#,
        r#"["candidate",["c","m",1,null]]"#,
    ] {
        let got = candidate_in(raw);
        assert_eq!(got.candidate, "c", "{}", raw);
        assert_eq!(got.sdp_mid, Some("m".to_owned()));
        assert_eq!(got.sdp_mline_index, Some(1));
        assert_eq!(got.username_fragment, None);
    }
}

#[test]
fn arrays_are_read_by_position() {
    match Signal::from_json(r#"["offer","v=0"]"#) {
        Ok(Signal::Offer { sdp }) => assert_eq!(sdp, "v=0"),
        other => panic!("{:?}", other),
    }
    match Signal::from_json(r#" [ "answer" , "x" ] "#) {
        Ok(Signal::Answer { sdp }) => assert_eq!(sdp, "x"),
        other => panic!("{:?}", other),
    }
    assert_eq!(error_of("[]"), SignalError::NoType);
    assert_eq!(error_of("[1]"), SignalError::NoType);
    assert_eq!(error_of(r#"["offer"]"#), SignalError::WrongLength);
    assert_eq!(error_of(r#"["offer","x","y"]"#), SignalError::WrongLength);
    assert_eq!(error_of(r#"["offer",null]"#), SignalError::NoSdp);
    assert_eq!(error_of(r#"["candidate","c"]"#), SignalError::NoCandidate);
    assert_eq!(error_of(r#"["candidate",["c",null,null]]"#), SignalError::WrongLength);
    assert_eq!(error_of(r#"["hello","x"]"#), SignalError::UnknownType);
}

#[test]
fn repeated_fields_are_refused() {
    let raw = r#"{"type":"offer","type":"offer","sdp":"a"}"#;
    assert_eq!(error_of(raw), SignalError::NoType);
    assert_eq!(error_of(r#"{"type":"offer","sdp":"a","sdp":"b"}"#), SignalError::NoSdp);
    assert_eq!(error_of(r#"{"type":"offer","sdp":"a","s\u0064p":"b"}"#), SignalError::NoSdp);
    let raw = r#"{"type":"candidate","candidate":"a","candidate":"b"}"#;
    assert_eq!(error_of(raw), SignalError::NoCandidate);
    let raw = r#"{"type":"candidate","candidate":"a","sdpMid":"b","sdpMid":null}"#;
    assert_eq!(error_of(raw), SignalError::BadSdpMid);
    let raw = r#"{"type":"candidate","candidate":{"candidate":"a","candidate":"b"}}"#;
    assert_eq!(error_of(raw), SignalError::NoCandidate);
    assert!(Signal::from_json(r#"{"type":"offer","sdp":"a","x":1,"x":2}"#).is_ok());
}

#[test]
fn bad_messages_are_told_apart() {
    assert_eq!(error_of("nonsense"), SignalError::Unreadable);
    assert_eq!(error_of("null"), SignalError::Unreadable);
    assert_eq!(error_of(r#"{"type":"offer","sdp":"a"} x"#), SignalError::Unreadable);
    assert_eq!(error_of("{}"), SignalError::NoType);
    assert_eq!(error_of(r#"{"type":1}"#), SignalError::NoType);
    assert_eq!(error_of(r#"{"type":"Offer","sdp":""}"#), SignalError::UnknownType);
    assert_eq!(error_of(r#"{"type":"offer"}"#), SignalError::NoSdp);
    assert_eq!(error_of(r#"{"type":"answer","sdp":null}"#), SignalError::NoSdp);
    assert_eq!(error_of(r#"{"type":"candidate"}"#), SignalError::NoCandidate);
    assert_eq!(error_of(r#"{"type":"candidate","candidate":{}}"#), SignalError::NoCandidate);
    assert_eq!(
        error_of(r#"{"type":"candidate","candidate":"c","sdpMid":0}"#),
        SignalError::BadSdpMid
    );
    for index in ["65536", "-1", "0.0", "-0", "\"0\"", "true"] {
        let raw = format!(r#"{{"type":"candidate","candidate":"c","sdpMLineIndex":{}}}"#, index);
        assert_eq!(error_of(&raw), SignalError::BadSdpMLineIndex, "{}", index);
    }
    assert_eq!(
        error_of(r#"{"type":"candidate","candidate":"c","usernameFragment":{}}"#),
        SignalError::BadUsernameFragment
    );
}

#[test]
fn documents_are_read_by_name() {
    let text = |s: &str| Field::Item(Item::Text(s.to_owned()));
    let fields = vec![("sdp".to_owned(), text("x")), ("type".to_owned(), text("answer"))];
    assert_eq!(find_name(&fields, "type"), Position::At(1));
    assert_eq!(find_name(&fields, "other"), Position::Missing);
    let document = Document::Object(fields);
    assert!(matches!(Signal::from_document(&document), Ok(Signal::Answer { .. })));
    let names: Vec<String> =
        Signal::Answer { sdp: String::new() }.to_fields().into_iter().map(|f| f.0).collect();
    assert_eq!(names, vec!["type", "sdp"]);
}

#[test]
fn documents_keep_what_the_text_repeats() {
    match read_document(r#"{"a":1,"b":[null,"x",-1],"a":{"c":2.5}}"#) {
        Some(Document::Object(fields)) => {
            assert_eq!(fields.len(), 3);
            assert_eq!(find_name(&fields, "a"), Position::Repeated);
            assert!(matches!(fields[0].1, Field::Item(Item::Natural(1))));
            match &fields[1].1 {
                Field::Record(Record::Array(items)) => {
                    assert!(matches!(items[0], Item::Null));
                    assert!(matches!(&items[1], Item::Text(s) if s == "x"));
                    assert!(matches!(items[2], Item::Other));
                }
                other => panic!("{:?}", other),
            }
            match &fields[2].1 {
                Field::Record(Record::Object(items)) => assert_eq!(items[0].0, "c"),
                other => panic!("{:?}", other),
            }
        }
        other => panic!("{:?}", other),
    }
    assert!(read_document("3").is_none());
}

#[test]
fn an_offer_is_answered() {
    let raw = format!(r#"{{"type":"offer","sdp":{}}}"#, json_string(SDP));
    let (exchange, step) = handle_message(&raw);
    match step {
        Step::SetRemote { offer } => assert_eq!(offer.sdp, SDP),
        _ => panic!("no remote description"),
    }
    let (exchange, step) = exchange.step(Outcome::Succeeded);
    assert!(matches!(step, Step::CreateAnswer));
    let (exchange, step) = exchange.step(Outcome::Answer { sdp: "ours".to_owned() });
    assert!(matches!(step, Step::SetLocal));
    let (exchange, step) = exchange.step(Outcome::Succeeded);
    match step {
        Step::Send { text } => assert_eq!(text, r#"{"type":"answer","sdp":"ours"}"#),
        _ => panic!("nothing sent"),
    }
    let (exchange, step) = exchange.step(Outcome::Failed);
    assert!(matches!(step, Step::Done(Ending::Answered)));
    let (_, step) = exchange.step(Outcome::Succeeded);
    assert!(matches!(step, Step::Done(Ending::Over)));
}

#[test]
fn failures_end_an_exchange_without_a_reply() {
    let (exchange, step) = handle_message(r#"{"type":"offer","sdp":"no sdp"}"#);
    assert!(matches!(exchange, Exchange::Finished));
    assert!(matches!(step, Step::Done(Ending::BadOffer)));
    assert!(matches!(begin_with_offer(None).1, Step::Done(Ending::BadOffer)));
    let (_, step) = Exchange::AwaitRemote.step(Outcome::Failed);
    assert!(matches!(step, Step::Done(Ending::RemoteRefused)));
    let (_, step) = Exchange::AwaitAnswer.step(Outcome::Failed);
    assert!(matches!(step, Step::Done(Ending::NoAnswer)));
    let (_, step) = Exchange::AwaitLocal { sdp: "x".to_owned() }.step(Outcome::Failed);
    assert!(matches!(step, Step::Done(Ending::LocalRefused)));
    let (_, step) = handle_message("{");
    assert!(matches!(step, Step::Done(Ending::BadMessage(SignalError::Unreadable))));
}

#[test]
fn candidates_are_added_and_answers_ignored() {
    let (exchange, step) = handle_message(r#"{"type":"candidate","candidate":"c"}"#);
    match step {
        Step::AddCandidate { candidate } => assert_eq!(candidate.candidate, "c"),
        _ => panic!("candidate lost"),
    }
    assert!(matches!(exchange.step(Outcome::Succeeded).1, Step::Done(Ending::CandidateAdded)));
    let (_, step) = Exchange::AwaitCandidate.step(Outcome::Failed);
    assert!(matches!(step, Step::Done(Ending::CandidateRefused)));
    let (_, step) = handle_message(r#"{"type":"answer","sdp":"x"}"#);
    assert!(matches!(step, Step::Done(Ending::UnexpectedAnswer)));
}
