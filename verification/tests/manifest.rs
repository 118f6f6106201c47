use miniond::applet::tmcc::update_canonical;
use miniond::applet::Message;
use miniond::error::Error;
use miniond::geni::{Ipv4, Node, RSpec};
use miniond::tmcc::manifest::{after_first_chunk, after_second_chunk, geni_manifest, read_payload, FrameStep};
use miniond::tmcc::AllocationStatus;

const XML: &str = "<rspec><node client_id=\"node0\"/></rspec>";

fn framed(prefix: &[u8], payload: &str, suffix: &[u8]) -> Vec<u8> {
    let mut reply = prefix.to_vec();
    reply.extend_from_slice(payload.as_bytes());
    reply.extend_from_slice(suffix);
    reply
}

#[test]
fn status_byte_then_payload() {
    assert_eq!(geni_manifest(&framed(&[0], XML, &[0])).unwrap(), XML);
    assert_eq!(geni_manifest(&framed(&[0], XML, &[0, 1, 2, 0])).unwrap(), XML);
    assert_eq!(geni_manifest(&framed(&[0], XML, &[])).unwrap(), XML);
    assert_eq!(geni_manifest(&framed(&[0], "ab", &[0])).unwrap(), "ab");
}

#[test]
fn payload_without_status_byte() {
    assert_eq!(geni_manifest(&framed(&[], XML, &[0])).unwrap(), XML);
    assert_eq!(geni_manifest(&framed(&[], XML, &[])).unwrap(), XML);
    assert_eq!(geni_manifest(&framed(&[], XML, &[0, 65, 0])).unwrap(), XML);
}

#[test]
fn two_zero_bytes_report_a_failure() {
    assert_eq!(geni_manifest(&[0, 0]).unwrap_err(), Error::TmcdGeniError);
    assert_eq!(geni_manifest(&framed(&[0, 0], XML, &[0])).unwrap_err(), Error::TmcdGeniError);
    assert_eq!(geni_manifest(&[0, 65]).unwrap_err(), Error::TmcdGeniError);
}

#[test]
fn nothing_or_a_single_byte_is_blank() {
    assert_eq!(geni_manifest(&[]).unwrap_err(), Error::TmcdGeniBlankResponse);
    assert_eq!(geni_manifest(&[0]).unwrap_err(), Error::TmcdGeniBlankResponse);
    assert_eq!(geni_manifest(&[65]).unwrap_err(), Error::TmcdGeniBlankResponse);
}

#[test]
fn payload_must_be_utf8() {
    assert_eq!(geni_manifest(&[0, 0xff, 0xfe, 0]).unwrap_err(), Error::TmcdInvalidUtf8);
    assert_eq!(geni_manifest(&[0xc3, 0x28, 0]).unwrap_err(), Error::TmcdInvalidUtf8);
    assert_eq!(geni_manifest(&framed(&[0], "Zürich", &[0])).unwrap(), "Zürich");
    assert_eq!(read_payload(vec![0xe2, 0x82]).unwrap_err(), Error::TmcdInvalidUtf8);
    assert_eq!(read_payload("é".as_bytes().to_vec()).unwrap(), "é");
    assert_eq!(read_payload(vec![]).unwrap(), "");
}

#[test]
fn chunks_decide_step_by_step() {
    assert!(matches!(after_first_chunk(vec![]), FrameStep::Failed(Error::TmcdGeniBlankResponse)));
    assert!(matches!(after_first_chunk(vec![0]), FrameStep::ReadAgain));
    assert!(matches!(after_first_chunk(vec![7]), FrameStep::ReadAgain));
    match after_first_chunk(vec![1, 2, 0]) {
        FrameStep::Payload(p) => assert_eq!(p, vec![1, 2]),
        other => panic!("{:?}", other),
    }
    match after_first_chunk(vec![1, 2]) {
        FrameStep::Payload(p) => assert_eq!(p, vec![1, 2]),
        other => panic!("{:?}", other),
    }
    assert_eq!(after_second_chunk(vec![]).unwrap_err(), Error::TmcdGeniBlankResponse);
    assert_eq!(after_second_chunk(vec![0]).unwrap_err(), Error::TmcdGeniError);
    assert_eq!(after_second_chunk(vec![9]).unwrap_err(), Error::TmcdGeniError);
    assert_eq!(after_second_chunk(vec![9, 0]).unwrap(), vec![9]);
    assert_eq!(after_second_chunk(vec![9, 8]).unwrap(), vec![9, 8]);
}

fn manifest() -> RSpec {
    RSpec::new(vec![
        Node::new("node0".to_string(), "node0.exp.proj.emulab.net".to_string(), Ipv4 { a: 10, b: 0, c: 0, d: 1 }),
        Node::new("node1".to_string(), "node1.exp.proj.emulab.net".to_string(), Ipv4 { a: 10, b: 0, c: 0, d: 2 }),
        Node::new("node1".to_string(), "other".to_string(), Ipv4 { a: 10, b: 0, c: 0, d: 3 }),
    ])
}

#[test]
fn nodes_are_found_by_nickname() {
    let m = manifest();
    let n = m.get_node("node1").unwrap();
    assert_eq!(n.client_id(), "node1");
    assert_eq!(n.fqdn(), "node1.exp.proj.emulab.net");
    assert_eq!(n.ipv4(), Ipv4 { a: 10, b: 0, c: 0, d: 2 });
    assert!(m.get_node("node2").is_none());
    assert!(m.get_node("").is_none());
    assert!(RSpec::new(vec![]).get_node("node0").is_none());
}

#[test]
fn canonical_update_names_the_allocated_node() {
    let allocation = AllocationStatus { experiment: "proj/exp".to_string(), node_name: "node0".to_string() };
    match update_canonical(&manifest(), &allocation).unwrap() {
        Message::UpdateCanonical(fqdn, ipv4) => {
            assert_eq!(fqdn, "node0.exp.proj.emulab.net");
            assert_eq!(ipv4, Ipv4 { a: 10, b: 0, c: 0, d: 1 });
        }
        other => panic!("{:?}", other),
    }
    let allocation = AllocationStatus { experiment: "proj/exp".to_string(), node_name: "node9".to_string() };
    assert_eq!(update_canonical(&manifest(), &allocation).unwrap_err(), Error::GeniNoSuchNode);
}
