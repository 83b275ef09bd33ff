//! Tests of the streaming response decoder.

use chat_relay::adapter::StreamDecoder;

fn feed_str(dec: &mut StreamDecoder, chunk: &str) -> Vec<String> {
    dec.feed(chunk.as_bytes())
}

#[test]
fn stream_two_fragments_then_done() {
    let mut dec = StreamDecoder::new();
    let f1 = feed_str(
        &mut dec,
        "data: {\"choices\":[{\"delta\":{\"content\":\"he\"}}]}\n",
    );
    assert_eq!(f1, vec!["he".to_string()]);
    let f2 = feed_str(
        &mut dec,
        "data: {\"choices\":[{\"delta\":{\"content\":\"llo\"}}]}\n",
    );
    assert_eq!(f2, vec!["llo".to_string()]);
    assert!(!dec.is_done());
    let f3 = feed_str(&mut dec, "data: [DONE]\n");
    assert!(f3.is_empty());
    assert!(dec.is_done());
}

#[test]
fn partial_record_buffered_across_chunks() {
    let mut dec = StreamDecoder::new();
    let f1 = feed_str(&mut dec, "data: {\"choices\":[{\"delta\":{\"cont");
    assert!(f1.is_empty());
    let f2 = feed_str(&mut dec, "ent\":\"hi\"}}]}\n");
    assert_eq!(f2, vec!["hi".to_string()]);
}

#[test]
fn malformed_record_dropped_stream_continues() {
    let mut dec = StreamDecoder::new();
    let f1 = feed_str(&mut dec, "data: {this is not json}\n");
    assert!(f1.is_empty());
    assert!(!dec.is_done());
    let f2 = feed_str(
        &mut dec,
        "data: {\"choices\":[{\"delta\":{\"content\":\"ok\"}}]}\n",
    );
    assert_eq!(f2, vec!["ok".to_string()]);
}

#[test]
fn non_data_record_ignored() {
    let mut dec = StreamDecoder::new();
    let f = feed_str(&mut dec, ": keep-alive comment\n\n");
    assert!(f.is_empty());
    assert!(!dec.is_done());
}

#[test]
fn record_without_content_delta_dropped() {
    let mut dec = StreamDecoder::new();
    let f = feed_str(
        &mut dec,
        "data: {\"choices\":[{\"delta\":{},\"finish_reason\":\"stop\"}]}\n",
    );
    assert!(f.is_empty());
    assert!(!dec.is_done());
}

#[test]
fn carriage_return_stripped() {
    let mut dec = StreamDecoder::new();
    let f = feed_str(
        &mut dec,
        "data: {\"choices\":[{\"delta\":{\"content\":\"x\"}}]}\r\n",
    );
    assert_eq!(f, vec!["x".to_string()]);
    let g = feed_str(&mut dec, "data: [DONE]\r\n");
    assert!(g.is_empty());
    assert!(dec.is_done());
}

#[test]
fn records_after_sentinel_ignored() {
    let mut dec = StreamDecoder::new();
    let f = feed_str(
        &mut dec,
        "data: [DONE]\ndata: {\"choices\":[{\"delta\":{\"content\":\"late\"}}]}\n",
    );
    assert!(f.is_empty());
    assert!(dec.is_done());
}

#[test]
fn several_records_in_one_chunk_in_order() {
    let mut dec = StreamDecoder::new();
    let f = feed_str(
        &mut dec,
        "data: {\"choices\":[{\"delta\":{\"content\":\"a\"}}]}\ndata: {\"choices\":[{\"delta\":{\"content\":\"b\"}}]}\n",
    );
    assert_eq!(f, vec!["a".to_string(), "b".to_string()]);
}

#[test]
fn finish_decodes_leftover_partial_record() {
    let mut dec = StreamDecoder::new();
    let f = feed_str(
        &mut dec,
        "data: {\"choices\":[{\"delta\":{\"content\":\"tail\"}}]}",
    );
    assert!(f.is_empty());
    let frag = dec.finish();
    assert_eq!(frag, Some("tail".to_string()));
}

#[test]
fn finish_with_empty_buffer_yields_nothing() {
    let mut dec = StreamDecoder::new();
    let _ = feed_str(
        &mut dec,
        "data: {\"choices\":[{\"delta\":{\"content\":\"x\"}}]}\n",
    );
    assert_eq!(dec.finish(), None);
}

#[test]
fn content_is_extracted_not_echoed() {
    // The decoded fragment is the content delta alone, not the record or
    // payload text.
    let mut dec = StreamDecoder::new();
    let f = feed_str(
        &mut dec,
        "data: {\"choices\":[{\"delta\":{\"content\":\"only this\"}}]}\n",
    );
    assert_eq!(f, vec!["only this".to_string()]);
}

#[test]
fn escaped_json_content_decoded() {
    let mut dec = StreamDecoder::new();
    let f = feed_str(
        &mut dec,
        "data: {\"choices\":[{\"delta\":{\"content\":\"line\\nbreak\"}}]}\n",
    );
    assert_eq!(f, vec!["line\nbreak".to_string()]);
}
