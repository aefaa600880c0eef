use cfix::framer::{find_frame_end, Framer};
use cfix::requests::{HeartbeatReq, LogonReq, RequestMessage, TestReq};
use cfix::time::Timestamp;
use cfix::types::{Config, Field, SubID, DELIMITER};

fn wire(text: &str) -> Vec<u8> {
    text.bytes().map(|b| if b == b'|' { DELIMITER } else { b }).collect()
}

fn show(bytes: &[u8]) -> String {
    bytes.iter().map(|b| if *b == DELIMITER { '|' } else { *b as char }).collect()
}

fn raw_of(framer: &mut Framer, chunk: &[u8]) -> Vec<String> {
    framer.recv(chunk).iter().map(|m| show(m.get_message())).collect()
}

const A: &str = "8=FIX.4.4|9=5|35=0|10=001|";
const B: &str = "8=FIX.4.4|9=6|35=1|112=x|10=002|";
const C: &str = "8=FIX.4.4|9=5|35=5|10=255|";

#[test]
fn frame_end_is_behind_the_first_trailer() {
    assert_eq!(find_frame_end(&wire(A), DELIMITER), Some(A.len()));
    assert_eq!(find_frame_end(&wire(&format!("{}{}", A, B)), DELIMITER), Some(A.len()));
    assert_eq!(find_frame_end(&wire("|10=123|"), DELIMITER), Some(8));
    assert_eq!(find_frame_end(&wire("x|10=123|rest"), DELIMITER), Some(9));
}

#[test]
fn frame_end_needs_the_whole_trailer() {
    assert_eq!(find_frame_end(b"", DELIMITER), None);
    assert_eq!(find_frame_end(&wire("8=FIX.4.4|9=5|35=0|10=001"), DELIMITER), None);
    assert_eq!(find_frame_end(&wire("8=FIX.4.4|9=5|35=0|10=00"), DELIMITER), None);
    // no delimiter before the tag
    assert_eq!(find_frame_end(&wire("10=001|"), DELIMITER), None);
    assert_eq!(find_frame_end(&wire("110=001|"), DELIMITER), None);
    // not three digits
    assert_eq!(find_frame_end(&wire("35=0|10=01|"), DELIMITER), None);
    assert_eq!(find_frame_end(&wire("35=0|10=0a1|"), DELIMITER), None);
    assert_eq!(find_frame_end(&wire("35=0|10=0001|"), DELIMITER), None);
    assert_eq!(find_frame_end(&wire("35=0|100=001|"), DELIMITER), None);
}

#[test]
fn one_message_in_one_read() {
    let mut framer = Framer::new(DELIMITER);
    let out = framer.recv(&wire(A));
    assert_eq!(out.len(), 1);
    assert_eq!(show(out[0].get_message()), A);
    assert_eq!(out[0].get_message_type(), Some(b"0".to_vec()));
    assert_eq!(out[0].get_field_value(Field::CheckSum), Some(b"001".to_vec()));
    assert_eq!(framer.recv(b"").len(), 0);
}

#[test]
fn several_messages_in_one_read() {
    let mut framer = Framer::new(DELIMITER);
    let out = raw_of(&mut framer, &wire(&format!("{}{}{}", A, B, C)));
    assert_eq!(out, vec![A.to_string(), B.to_string(), C.to_string()]);
}

#[test]
fn a_message_split_across_reads_is_kept_until_its_end_arrives() {
    let mut framer = Framer::new(DELIMITER);
    let bytes = wire(B);
    assert_eq!(framer.recv(&bytes[..10]).len(), 0);
    assert_eq!(framer.recv(&bytes[10..bytes.len() - 1]).len(), 0);
    let out = raw_of(&mut framer, &bytes[bytes.len() - 1..]);
    assert_eq!(out, vec![B.to_string()]);
    assert_eq!(framer.recv(b"").len(), 0);
}

#[test]
fn a_read_may_end_one_message_and_start_the_next() {
    let mut framer = Framer::new(DELIMITER);
    let bytes = wire(&format!("{}{}", A, B));
    let cut = A.len() + 4;
    assert_eq!(raw_of(&mut framer, &bytes[..cut]), vec![A.to_string()]);
    assert_eq!(raw_of(&mut framer, &bytes[cut..]), vec![B.to_string()]);
}

#[test]
fn any_chunking_gives_the_messages_of_the_whole_stream() {
    let stream = wire(&format!("{}{}{}{}", A, B, C, B));
    let mut whole = Framer::new(DELIMITER);
    let expected = raw_of(&mut whole, &stream);
    assert_eq!(expected.len(), 4);
    for size in 1..=stream.len() {
        let mut framer = Framer::new(DELIMITER);
        let mut out = Vec::new();
        for chunk in stream.chunks(size) {
            out.extend(raw_of(&mut framer, chunk));
        }
        assert_eq!(out, expected, "chunks of {}", size);
    }
}

#[test]
fn uneven_chunking_gives_the_messages_of_the_whole_stream() {
    let stream = wire(&format!("{}{}{}", C, A, B));
    let mut framer = Framer::new(DELIMITER);
    let mut out = Vec::new();
    let mut at = 0;
    let mut size = 1;
    while at < stream.len() {
        let end = (at + size).min(stream.len());
        out.extend(raw_of(&mut framer, &stream[at..end]));
        at = end;
        size = size % 7 + 1;
    }
    assert_eq!(out, vec![C.to_string(), A.to_string(), B.to_string()]);
}

#[test]
fn n_complete_messages_come_out_as_n_messages() {
    for n in 0..6 {
        let mut stream = Vec::new();
        for _ in 0..n {
            stream.extend(wire(A));
        }
        let mut framer = Framer::new(DELIMITER);
        assert_eq!(framer.recv(&stream).len(), n);
    }
}

#[test]
fn encoded_requests_are_framed_one_by_one() {
    let c = Config::new(b"h".to_vec(), b"u".to_vec(), b"p".to_vec(), b"c".to_vec(), 30);
    let t = Timestamp::from_millis(1484648814000).unwrap();
    let first = LogonReq::new(Some(true)).build(SubID::QUOTE, 1, DELIMITER, &c, &t);
    let second = HeartbeatReq::new(None).build(SubID::QUOTE, 2, DELIMITER, &c, &t);
    let third = TestReq::new(b"10=123".to_vec()).build(SubID::QUOTE, 3, DELIMITER, &c, &t);
    let mut stream = first.clone();
    stream.extend(&second);
    stream.extend(&third);
    let mut framer = Framer::new(DELIMITER);
    let out = framer.recv(&stream);
    assert_eq!(out.len(), 3);
    assert_eq!(out[0].get_message(), &first[..]);
    assert_eq!(out[1].get_message(), &second[..]);
    assert_eq!(out[2].get_message(), &third[..]);
    assert_eq!(out[2].get_field_value(Field::TestReqID), Some(b"10=123".to_vec()));
    assert_eq!(out[0].get_field_value(Field::MsgSeqNum), Some(b"1".to_vec()));
}

#[test]
fn framer_with_another_delimiter() {
    let mut framer = Framer::new(b';');
    let out = framer.recv(b"35=0;10=001;35=1;10=0");
    assert_eq!(out.len(), 1);
    assert_eq!(out[0].get_message(), b"35=0;10=001;");
    let out = framer.recv(b"02;");
    assert_eq!(out.len(), 1);
    assert_eq!(out[0].get_message(), b"35=1;10=002;");
    assert_eq!(out[0].get_message_type(), Some(b"1".to_vec()));
}
