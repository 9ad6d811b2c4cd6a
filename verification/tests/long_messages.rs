//! Long messages: splitting, merging and the cache of segments.

use rsms::error::RsmsError;
use rsms::longmsg::cache::{FrameCache, InMemoryFrameCache};
use rsms::longmsg::frame::{
    LongMessageFrame, UdhHeader, UdhParser, UDH_HEADER_16BIT_LEN, UDH_HEADER_8BIT_LEN, UDH_IEI_CONCAT_16BIT,
};
use rsms::longmsg::merge::LongMessageMerger;
use rsms::longmsg::reference_id::{ReferenceIdGenerator, SeedDispenser};
use rsms::longmsg::segment_bitmap::SegmentBitmap;
use rsms::longmsg::split::{LongMessageSplitter, SmsAlphabet, GSM_7BIT_MULTI_MAX, UCS2_MULTI_MAX};
use std::collections::HashSet;
use std::time::{Duration, Instant};

fn splitter() -> LongMessageSplitter {
    LongMessageSplitter::new(&mut SeedDispenser::new(4711))
}

fn wait(millis: u64) {
    let start = Instant::now();
    while start.elapsed() < Duration::from_millis(millis) {}
}

#[test]
fn test_reference_id_wrapping() {
    let mut generator = ReferenceIdGenerator::with_value(u64::MAX - 2);

    let id1 = generator.next_reference_id();
    let id2 = generator.next_reference_id();
    let id3 = generator.next_reference_id();

    assert_eq!(id1, u16::MAX - 2);
    assert_eq!(id2, u16::MAX - 1);
    assert_eq!(id3, u16::MAX);
    assert_eq!(generator.next_reference_id(), 0);
}

#[test]
fn test_sequential_ids() {
    let mut generator = ReferenceIdGenerator::new(&mut SeedDispenser::new(4711));

    let id1 = generator.next_reference_id();
    let id2 = generator.next_reference_id();

    assert_eq!(id2, id1.wrapping_add(1));
}

#[test]
fn fresh_generators_have_distinct_starting_references() {
    let mut seeds = SeedDispenser::new(4711);
    let mut seen = HashSet::new();
    for _ in 0..1000 {
        let start = ReferenceIdGenerator::new(&mut seeds).current();
        assert!(seen.insert(start), "two generators start with {start}");
    }
}

#[test]
fn test_bitmap_basic() {
    let mut bitmap = SegmentBitmap::new(3);
    assert!(!bitmap.is_complete());

    assert!(bitmap.mark_received(2));
    assert!(!bitmap.is_received(1));
    assert!(bitmap.is_received(2));

    bitmap.mark_received(1);
    assert!(!bitmap.is_complete());

    bitmap.mark_received(3);
    assert!(bitmap.is_complete());
}

#[test]
fn test_duplicate_segment() {
    let mut bitmap = SegmentBitmap::new(3);
    assert!(bitmap.mark_received(1));
    assert!(!bitmap.mark_received(1));
    assert_eq!(bitmap.received_count(), 1);
}

#[test]
fn test_missing_count() {
    let mut bitmap = SegmentBitmap::new(5);
    assert_eq!(bitmap.missing_count(), 5);

    bitmap.mark_received(2);
    bitmap.mark_received(4);
    assert_eq!(bitmap.missing_count(), 3);
}

fn assert_segments_within_limit(frames: &[LongMessageFrame], max: usize) {
    assert!(frames.len() > 1, "the content takes several segments");
    for f in frames {
        assert!(
            f.content.len() <= max,
            "segment {}/{} has {} bytes, more than {}",
            f.segment_number,
            f.total_segments,
            f.content.len(),
            max
        );
    }
}

#[test]
fn split_16bit_udh_segment_within_gsm_limit() {
    let g = ReferenceIdGenerator::with_value(300);
    let mut splitter = LongMessageSplitter::with_generator(g);
    let frames = splitter.split(&vec![b'A'; 500], SmsAlphabet::GSM7);
    assert_eq!(frames[0].reference_id, 300);
    assert_eq!(frames[0].udh.as_ref().unwrap().iei, UDH_IEI_CONCAT_16BIT);
    assert_segments_within_limit(&frames, GSM_7BIT_MULTI_MAX);
}

#[test]
fn split_8bit_udh_segment_within_gsm_limit() {
    let g = ReferenceIdGenerator::with_value(10);
    let mut splitter = LongMessageSplitter::with_generator(g);
    let frames = splitter.split(&vec![b'B'; 500], SmsAlphabet::GSM7);
    assert_segments_within_limit(&frames, GSM_7BIT_MULTI_MAX);
}

#[test]
fn split_16bit_udh_segment_within_ucs2_limit() {
    let g = ReferenceIdGenerator::with_value(400);
    let mut splitter = LongMessageSplitter::with_generator(g);
    let frames = splitter.split(&vec![b'C'; 300], SmsAlphabet::UCS2);
    assert_segments_within_limit(&frames, UCS2_MULTI_MAX);
}

#[test]
fn split_16bit_roundtrip_payload_preserved() {
    let g = ReferenceIdGenerator::with_value(300);
    let mut splitter = LongMessageSplitter::with_generator(g);
    let content: Vec<u8> = (0..500u32).map(|i| (i % 251) as u8).collect();
    let frames = splitter.split(&content, SmsAlphabet::GSM7);
    let mut reassembled = Vec::new();
    for f in &frames {
        let udh_len =
            if f.reference_id > 255 { UDH_HEADER_16BIT_LEN } else { UDH_HEADER_8BIT_LEN };
        reassembled.extend_from_slice(&f.content[udh_len..]);
    }
    assert_eq!(reassembled, content);
}

#[test]
fn different_senders_same_reference_do_not_cross_merge() {
    let content_a = vec![0xAAu8; 400];
    let content_b = vec![0xBBu8; 400];
    let mut sa = LongMessageSplitter::with_generator(ReferenceIdGenerator::with_value(1));
    let mut sb = LongMessageSplitter::with_generator(ReferenceIdGenerator::with_value(1));
    let fa = sa.split(&content_a, SmsAlphabet::GSM7);
    let fb = sb.split(&content_b, SmsAlphabet::GSM7);
    assert!(fa.len() >= 2);
    assert_eq!(fa.len(), fb.len());
    assert_eq!(fa[0].reference_id, fb[0].reference_id);

    let mut merger = LongMessageMerger::new();
    let mut done_a = None;
    let mut done_b = None;
    for i in 0..fa.len() {
        if let Some(m) = merger.add_frame("13800000001", fa[i].clone()).unwrap() {
            done_a = Some(m);
        }
        if let Some(m) = merger.add_frame("13800000002", fb[i].clone()).unwrap() {
            done_b = Some(m);
        }
    }

    let da = done_a.expect("the first sender's message is complete");
    let db = done_b.expect("the second sender's message is complete");
    assert_eq!(da, content_a);
    assert_eq!(db, content_b);
}

#[test]
fn short_message_not_split() {
    let mut splitter = splitter();
    let content = b"Hello, this is a short message!";

    let frames = splitter.split(content, SmsAlphabet::GSM7);

    assert_eq!(frames.len(), 1);
    assert!(!frames[0].has_udhi);
}

#[test]
fn long_message_split_into_multiple_segments() {
    let mut splitter = splitter();
    let content = vec![0x41u8; 200];

    let frames = splitter.split(&content, SmsAlphabet::GSM7);

    assert!(frames.len() > 1);
    for frame in &frames {
        assert!(frame.has_udhi);
        assert!(frame.total_segments > 1);
    }
}

#[test]
fn split_segments_have_sequential_numbers() {
    let mut splitter = splitter();
    let content = vec![0x42u8; 300];

    let frames = splitter.split(&content, SmsAlphabet::GSM7);

    let ref_id = frames[0].reference_id;
    let total = frames[0].total_segments;

    for (i, frame) in frames.iter().enumerate() {
        assert_eq!(frame.reference_id, ref_id);
        assert_eq!(frame.total_segments, total);
        assert_eq!(frame.segment_number, (i + 1) as u8);
    }
}

#[test]
fn merge_single_frame_returns_message() {
    let mut merger = LongMessageMerger::new();
    let frame = LongMessageFrame::new(0, 1, 1, b"Hello".to_vec(), false, None);

    let result = merger.add_frame("s", frame).unwrap();

    assert!(result.is_some());
    assert_eq!(result.unwrap(), b"Hello");
}

#[test]
fn merge_multiple_frames_from_splitter() {
    let mut merger = LongMessageMerger::new();
    let content = b"Hello World Test Message";

    let mut splitter = splitter();
    let frames = splitter.split(content, SmsAlphabet::GSM7);

    for frame in frames {
        let result = merger.add_frame("s", frame).unwrap();
        if result.is_some() {
            assert_eq!(result.unwrap(), content);
        }
    }
}

#[test]
fn merge_pending_frames_until_all_arrive() {
    let mut merger = LongMessageMerger::new();

    let frame1 = LongMessageFrame::new(5, 2, 1, vec![0x41, 0x41], true, None);
    let frame2 = LongMessageFrame::new(5, 2, 2, vec![0x42, 0x42], true, None);

    let result1 = merger.add_frame("s", frame1).unwrap();
    assert!(result1.is_none());
    assert_eq!(merger.pending_count(), 1);

    let result2 = merger.add_frame("s", frame2).unwrap();
    assert!(result2.is_some());
    assert_eq!(merger.pending_count(), 0);
}

#[test]
fn ucs2_long_message_gets_split_with_udhi() {
    let mut splitter = splitter();
    let content: Vec<u8> = vec![0x00; 100];

    let frames = splitter.split(&content, SmsAlphabet::UCS2);

    assert!(frames.len() > 1);
    for frame in &frames {
        assert!(frame.has_udhi);
    }
}

#[test]
fn ascii_message_split() {
    let mut splitter = splitter();
    let content = b"Test message for ASCII splitting";

    let frames = splitter.split(content, SmsAlphabet::ASCII);

    assert!(frames.len() >= 1);
}

#[test]
fn binary_message_split() {
    let mut splitter = splitter();
    let content: Vec<u8> = (0..200u8).collect();

    let frames = splitter.split(&content, SmsAlphabet::Binary);

    for frame in &frames {
        assert!(frame.has_udhi);
    }
}

fn multi_segment_frames(ref_id: u64, fill: u8) -> Vec<LongMessageFrame> {
    let mut splitter =
        LongMessageSplitter::with_generator(ReferenceIdGenerator::with_value(ref_id));
    let frames = splitter.split(&vec![fill; 400], SmsAlphabet::GSM7);
    assert!(frames.len() >= 2);
    frames
}

#[test]
fn cleanup_expired_removes_stale_incomplete_entries() {
    let frames = multi_segment_frames(300, b'X');
    let mut merger = LongMessageMerger::with_ttl(Duration::from_millis(30));
    assert!(merger.add_frame("s", frames[0].clone()).unwrap().is_none());
    assert_eq!(merger.pending_count(), 1);
    wait(60);
    merger.cleanup_expired();
    assert_eq!(merger.pending_count(), 0);
}

#[test]
fn add_frame_triggers_lazy_cleanup_of_stale_entries() {
    let a = multi_segment_frames(300, b'X');
    let b = multi_segment_frames(900, b'Y');
    let mut merger = LongMessageMerger::with_ttl(Duration::from_millis(30));
    merger.add_frame("s", a[0].clone()).unwrap();
    assert_eq!(merger.pending_count(), 1);
    wait(60);
    merger.add_frame("s", b[0].clone()).unwrap();
    assert_eq!(merger.pending_count(), 1);
}

#[test]
fn segments_may_come_in_any_order() {
    let content: Vec<u8> = (0..600u32).map(|i| (i % 253) as u8).collect();
    for reference in [9u64, 900] {
        let mut splitter =
            LongMessageSplitter::with_generator(ReferenceIdGenerator::with_value(reference));
        let mut frames = splitter.split(&content, SmsAlphabet::Binary);
        frames.reverse();
        let mut merger = LongMessageMerger::new();
        let mut whole = None;
        for f in frames {
            assert!(whole.is_none());
            whole = merger.add_frame("s", f).unwrap();
        }
        assert_eq!(whole, Some(content.clone()));
    }
}

#[test]
fn repeated_segments_change_nothing() {
    let mut merger = LongMessageMerger::new();
    let first = LongMessageFrame::new(5, 2, 1, b"AA".to_vec(), true, None);
    let again = LongMessageFrame::new(5, 2, 1, b"ZZ".to_vec(), true, None);
    let second = LongMessageFrame::new(5, 2, 2, b"BB".to_vec(), true, None);
    assert_eq!(merger.add_frame_at("s", first, 0), None);
    assert_eq!(merger.add_frame_at("s", again, 1), None);
    assert_eq!(merger.pending_count(), 1);
    assert_eq!(merger.add_frame_at("s", second, 2), Some(b"AABB".to_vec()));
}

#[test]
fn segments_expire_by_the_clock_handed_in() {
    let mut merger = LongMessageMerger::new();
    merger.set_ttl(Duration::from_nanos(10));
    let frame = LongMessageFrame::new(5, 2, 1, b"AA".to_vec(), true, None);
    assert_eq!(merger.add_frame_at("s", frame.clone(), 100), None);
    merger.cleanup_expired_at(109);
    assert_eq!(merger.pending_count(), 1);
    merger.cleanup_expired_at(111);
    assert_eq!(merger.pending_count(), 0);
    assert_eq!(merger.add_frame_at("s", frame, 200), None);
    merger.clear();
    assert_eq!(merger.pending_count(), 0);
}

#[test]
fn references_choose_the_header() {
    let content = vec![b'A'; 400];
    let small = LongMessageSplitter::split_with_reference(&content, SmsAlphabet::GSM7, 255);
    assert_eq!(&small[0].content[..6], &[5, 0, 3, 255, 3, 1]);
    let large = LongMessageSplitter::split_with_reference(&content, SmsAlphabet::GSM7, 256);
    assert_eq!(&large[2].content[..7], &[6, 8, 4, 1, 0, 3, 3]);
    let (header, len) = UdhParser::extract_udh(&large[2].content).unwrap();
    assert_eq!((header.reference_id, header.total_segments, header.segment_number), (256, 3, 3));
    assert_eq!(len, UDH_HEADER_16BIT_LEN);
    assert_eq!(UdhParser::strip_udh(&large[0].content), &content[..large[0].content.len() - 7]);
}

#[test]
fn generators_can_be_reset() {
    let mut generator = ReferenceIdGenerator::with_value(10);
    assert_eq!(generator.current(), 10);
    assert_eq!(generator.next_reference_id(), 10);
    generator.reset();
    assert_eq!(generator.next_reference_id(), 0);
}

#[test]
fn bitmaps_list_their_segments() {
    let mut bitmap = SegmentBitmap::new(4);
    for n in [4, 1, 3] {
        assert!(bitmap.mark_received(n));
    }
    assert_eq!(bitmap.all_received(), vec![1, 3, 4]);
    assert_eq!(bitmap.clone().missing_count(), 1);
}

#[test]
fn cached_segments_are_found_until_they_expire() {
    let mut cache = InMemoryFrameCache::new(1);
    let first = LongMessageFrame::new(5, 2, 1, b"AA".to_vec(), true, None);
    let second = LongMessageFrame::new(5, 2, 2, b"BB".to_vec(), true, None);
    cache.put_at("k", first.clone(), 0);
    cache.put_at("k", second.clone(), 10);
    let found = cache.get("k").unwrap();
    assert_eq!(found.len(), 2);
    assert_eq!(found[0].content, b"AA");
    assert_eq!(found[1].content, b"BB");
    cache.cleanup_at(1_000_000_009);
    assert!(cache.get("k").is_some());
    cache.cleanup_at(1_000_000_010);
    assert!(cache.get("k").is_none());
    let mut cache = InMemoryFrameCache::default();
    cache.put("a", first);
    cache.put("b", second);
    cache.cleanup();
    cache.remove("a");
    assert!(cache.get("a").is_none());
    assert_eq!(cache.get("b").map(|f| f.len()), Some(1));
}

#[test]
fn headers_are_read_back() {
    let header = UdhHeader::new_16bit(0x1234, 3, 2);
    let mut bytes = header.to_bytes();
    assert_eq!(bytes.len(), 6);
    let read = UdhHeader::from_bytes(&bytes).unwrap();
    assert_eq!((read.iei, read.iedl, read.reference_id), (8, header.iedl, 0x1234));
    assert_eq!((read.total_segments, read.segment_number), (3, 2));
    bytes.push(b'A');
    assert_eq!(UdhHeader::from_bytes(&bytes).unwrap().reference_id, 0x1234);
    match UdhHeader::from_bytes(&bytes[..5]) {
        Err(RsmsError::Codec(s)) => assert_eq!(s, "16-bit UDH header too short"),
        other => panic!("expected an error, got {other:?}"),
    }
    let bytes = UdhHeader::new_8bit(0x42, 3, 1).to_bytes();
    assert_eq!(bytes, [0, 3, 0x42, 3, 1]);
    let read = UdhHeader::from_bytes(&bytes).unwrap();
    assert_eq!((read.iei, read.iedl, read.reference_id), (0, 3, 0x42));
    assert_eq!((read.total_segments, read.segment_number), (3, 1));
    match UdhHeader::from_bytes(&bytes[..4]) {
        Err(RsmsError::Codec(s)) => assert_eq!(s, "UDH header too short"),
        other => panic!("expected an error, got {other:?}"),
    }
    match UdhHeader::from_bytes(&[5, 3, 0x42, 3, 1, b'A']) {
        Err(RsmsError::Codec(s)) => assert_eq!(s, "not a concatenation UDH"),
        other => panic!("expected an error, got {other:?}"),
    }
    assert!(UdhParser::has_udhi(&[5, 0, 3, 7, 2, 1, b'A']));
    assert!(!UdhParser::has_udhi(b"plain text"));
}

#[test]
fn segments_have_the_names_of_their_messages() {
    let frame = LongMessageFrame::new(300, 3, 2, vec![], true, None);
    assert_eq!(frame.unique_id(), "300-3");
    let mut splitter = splitter();
    let pdus = splitter.split_into_pdu(&vec![b'A'; 200], SmsAlphabet::GSM7);
    assert_eq!(pdus.len(), 2);
}
