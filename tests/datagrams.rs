use quic_datagrams::datagrams::{
    FrameStats, QuicDatagrams, RecoveryToken, FRAME_TYPE_DATAGRAM, FRAME_TYPE_DATAGRAM_WITH_LEN,
    MAX_QUIC_DATAGRAM,
};
use quic_datagrams::events::{ConnectionEvents, DatagramOutcomeEvent, OutgoingDatagramOutcome};
use quic_datagrams::packet::PacketBuilder;
use quic_datagrams::Error;

fn engine(local: u64, out: usize, incoming: usize) -> QuicDatagrams {
    QuicDatagrams::new(local, out, incoming, ConnectionEvents::new())
}

fn queued_ids(d: &QuicDatagrams) -> Vec<Option<u64>> {
    let mut ids = Vec::new();
    for i in 0..d.queued_len() {
        ids.push(d.queued(i).id());
    }
    ids
}

#[test]
fn new_engine_sends_nothing_until_negotiated() {
    let d = engine(1200, 5, 5);
    assert_eq!(d.remote_datagram_size(), 0);
    assert_eq!(d.queued_len(), 0);
    assert!(d.events().outcomes().is_empty());
    assert_eq!(d.events().incoming_len(), 0);
}

#[test]
fn set_remote_size_clamps_to_ceiling() {
    let mut d = engine(1200, 5, 5);
    d.set_remote_datagram_size(1000);
    assert_eq!(d.remote_datagram_size(), 1000);
    d.set_remote_datagram_size(70000);
    assert_eq!(d.remote_datagram_size(), MAX_QUIC_DATAGRAM);
    d.set_remote_datagram_size(65535);
    assert_eq!(d.remote_datagram_size(), 65535);
    d.set_remote_datagram_size(u64::MAX);
    assert_eq!(d.remote_datagram_size(), 65535);
    d.set_remote_datagram_size(0);
    assert_eq!(d.remote_datagram_size(), 0);
}

#[test]
fn add_larger_than_remote_limit_is_refused() {
    let mut d = engine(1200, 5, 5);
    d.set_remote_datagram_size(20);
    assert_eq!(d.add_datagram(&[7; 5], Some(1)), Ok(()));
    assert_eq!(d.add_datagram(&[7; 21], Some(2)), Err(Error::SizeExceeded));
    assert_eq!(d.queued_len(), 1);
    assert_eq!(d.add_datagram(&[7; 20], Some(3)), Ok(()));
    assert_eq!(d.queued_len(), 2);
    assert!(d.events().outcomes().is_empty());
}

#[test]
fn add_to_full_queue_evicts_oldest() {
    let mut d = engine(1200, 2, 5);
    d.set_remote_datagram_size(100);
    assert_eq!(d.add_datagram(&[1; 3], Some(1)), Ok(()));
    assert_eq!(d.add_datagram(&[2; 3], Some(2)), Ok(()));
    assert!(d.events().outcomes().is_empty());
    assert_eq!(d.add_datagram(&[3; 3], Some(3)), Ok(()));
    assert_eq!(d.queued_len(), 2);
    assert_eq!(queued_ids(&d), vec![Some(2), Some(3)]);
    assert_eq!(d.queued(1).data(), &[3u8; 3][..]);
    assert_eq!(
        d.events().outcomes().clone(),
        vec![DatagramOutcomeEvent { id: Some(1), outcome: OutgoingDatagramOutcome::DroppedQueueFull }]
    );
    assert_eq!(d.add_datagram(&[4; 3], None), Ok(()));
    assert_eq!(queued_ids(&d), vec![Some(3), None]);
    assert_eq!(d.events().outcomes().len(), 2);
    assert_eq!(d.events().outcomes()[1].id, Some(2));
}

#[test]
fn misfit_head_is_kept_when_packet_has_frames() {
    let mut d = engine(1200, 5, 5);
    d.set_remote_datagram_size(1000);
    d.add_datagram(&[0xaa; 100], Some(1)).unwrap();
    d.add_datagram(&[0xbb; 5], Some(2)).unwrap();
    d.add_datagram(&[0xcc; 5], Some(3)).unwrap();
    let mut builder = PacketBuilder::new(50);
    let mut tokens = vec![RecoveryToken::Datagram(None)];
    let mut stats = FrameStats { datagram: 0 };
    d.write_frames(&mut builder, &mut tokens, &mut stats);
    assert_eq!(queued_ids(&d), vec![Some(1), Some(2), Some(3)]);
    assert_eq!(builder.len(), 0);
    assert_eq!(tokens, vec![RecoveryToken::Datagram(None)]);
    assert_eq!(stats.datagram, 0);
    assert!(d.events().outcomes().is_empty());
}

#[test]
fn too_big_head_is_dropped_from_empty_packet() {
    let mut d = engine(1200, 5, 5);
    d.set_remote_datagram_size(1000);
    d.add_datagram(&[0xaa; 100], Some(1)).unwrap();
    d.add_datagram(&[0xbb; 5], Some(2)).unwrap();
    let mut builder = PacketBuilder::new(50);
    let mut tokens = Vec::new();
    let mut stats = FrameStats { datagram: 0 };
    d.write_frames(&mut builder, &mut tokens, &mut stats);
    assert_eq!(queued_ids(&d), vec![Some(2)]);
    assert_eq!(builder.len(), 0);
    assert!(tokens.is_empty());
    assert_eq!(
        d.events().outcomes().clone(),
        vec![DatagramOutcomeEvent { id: Some(1), outcome: OutgoingDatagramOutcome::DroppedTooBig }]
    );
}

#[test]
fn inbound_datagram_over_local_limit_is_violation() {
    let mut d = engine(10, 5, 5);
    assert_eq!(d.handle_datagram(&[1; 11]), Err(Error::ProtocolViolation));
    assert_eq!(d.events().incoming_len(), 0);
    assert_eq!(d.handle_datagram(&[2; 10]), Ok(()));
    assert_eq!(d.events().incoming_len(), 1);
    assert_eq!(d.events().incoming(0), &vec![2u8; 10]);
    assert_eq!(d.handle_datagram(&[]), Ok(()));
    assert_eq!(d.events().incoming_len(), 2);
}

#[test]
fn inbound_queue_drops_oldest_when_full() {
    let mut d = engine(100, 5, 2);
    d.handle_datagram(&[1]).unwrap();
    d.handle_datagram(&[2]).unwrap();
    d.handle_datagram(&[3]).unwrap();
    assert_eq!(d.events().incoming_len(), 2);
    assert_eq!(d.events().incoming(0), &vec![2u8]);
    assert_eq!(d.events().incoming(1), &vec![3u8]);
    assert!(d.events().outcomes().is_empty());
}

#[test]
fn negotiated_scenario_writes_one_frame() {
    let mut d = engine(1200, 10, 10);
    assert_eq!(d.add_datagram(&[0x01; 10], None), Err(Error::SizeExceeded));
    d.set_remote_datagram_size(1000);
    assert_eq!(d.add_datagram(&[0x01; 999], Some(7)), Ok(()));
    assert_eq!(d.queued_len(), 1);
    let mut builder = PacketBuilder::new(2000);
    let mut tokens = Vec::new();
    let mut stats = FrameStats { datagram: 0 };
    d.write_frames(&mut builder, &mut tokens, &mut stats);
    assert_eq!(d.queued_len(), 0);
    assert_eq!(tokens, vec![RecoveryToken::Datagram(Some(7))]);
    assert_eq!(stats.datagram, 1);
    // 2000 bytes leave room after the frame: the length is written.
    let bytes = builder.as_bytes();
    assert_eq!(bytes.len(), 1 + 2 + 999);
    assert_eq!(bytes[0] as u64, FRAME_TYPE_DATAGRAM_WITH_LEN);
    assert_eq!(&bytes[1..3], &[0x43, 0xe7]);
    assert!(bytes[3..].iter().all(|b| *b == 0x01));
}

#[test]
fn several_frames_carry_their_lengths() {
    let mut d = engine(1200, 10, 10);
    d.set_remote_datagram_size(100);
    d.add_datagram(&[9, 8, 7], Some(1)).unwrap();
    d.add_datagram(&[6, 5], Some(2)).unwrap();
    let mut builder = PacketBuilder::new(100);
    let mut tokens = Vec::new();
    let mut stats = FrameStats { datagram: 3 };
    d.write_frames(&mut builder, &mut tokens, &mut stats);
    assert_eq!(builder.as_bytes(), &[0x31, 3, 9, 8, 7, 0x31, 2, 6, 5][..]);
    assert_eq!(tokens, vec![RecoveryToken::Datagram(Some(1)), RecoveryToken::Datagram(Some(2))]);
    assert_eq!(stats.datagram, 5);
    assert_eq!(d.queued_len(), 0);
}

#[test]
fn tight_packet_gets_frame_without_length_and_closes() {
    let mut d = engine(1200, 10, 10);
    d.set_remote_datagram_size(100);
    d.add_datagram(&[4; 10], Some(1)).unwrap();
    d.add_datagram(&[], Some(2)).unwrap();
    // 12 bytes: the frame with its length would need 12 and leave nothing.
    let mut builder = PacketBuilder::new(12);
    let mut tokens = Vec::new();
    let mut stats = FrameStats { datagram: 0 };
    d.write_frames(&mut builder, &mut tokens, &mut stats);
    let bytes = builder.as_bytes();
    assert_eq!(bytes.len(), 11);
    assert_eq!(bytes[0] as u64, FRAME_TYPE_DATAGRAM);
    assert_eq!(&bytes[1..], &[4u8; 10][..]);
    assert_eq!(tokens, vec![RecoveryToken::Datagram(Some(1))]);
    assert_eq!(queued_ids(&d), vec![Some(2)]);
    assert_eq!(builder.remaining(), 1);
}

#[test]
fn exactly_fitting_packet_is_filled() {
    let mut d = engine(1200, 10, 10);
    d.set_remote_datagram_size(100);
    d.add_datagram(&[4; 10], None).unwrap();
    let mut builder = PacketBuilder::new(11);
    let mut tokens = Vec::new();
    let mut stats = FrameStats { datagram: 0 };
    d.write_frames(&mut builder, &mut tokens, &mut stats);
    assert_eq!(builder.len(), 11);
    assert_eq!(builder.remaining(), 0);
    assert_eq!(tokens, vec![RecoveryToken::Datagram(None)]);
    assert_eq!(d.queued_len(), 0);
}

#[test]
fn empty_queue_writes_nothing() {
    let mut d = engine(1200, 10, 10);
    let mut builder = PacketBuilder::new(100);
    let mut tokens = Vec::new();
    let mut stats = FrameStats { datagram: 0 };
    d.write_frames(&mut builder, &mut tokens, &mut stats);
    assert_eq!(builder.len(), 0);
    assert!(tokens.is_empty());
    assert!(d.events().outcomes().is_empty());
}

#[test]
fn largest_datagram_is_accepted_at_ceiling() {
    let mut d = engine(1200, 1, 1);
    d.set_remote_datagram_size(u64::MAX);
    let big = vec![0u8; 65535];
    assert_eq!(d.add_datagram(&big, Some(1)), Ok(()));
    assert_eq!(d.add_datagram(&[0u8; 65536], Some(2)), Err(Error::SizeExceeded));
    let mut builder = PacketBuilder::new(70000);
    let mut tokens = Vec::new();
    let mut stats = FrameStats { datagram: 0 };
    d.write_frames(&mut builder, &mut tokens, &mut stats);
    let bytes = builder.as_bytes();
    // 65535 needs a four-byte length.
    assert_eq!(bytes.len(), 1 + 4 + 65535);
    assert_eq!(&bytes[..5], &[0x31, 0x80, 0x00, 0xff, 0xff]);
}
