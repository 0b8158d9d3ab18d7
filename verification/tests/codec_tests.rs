use dangerzone_rs::codec::{encode, parse_pixel_data};
use dangerzone_rs::error::ConvertError;
use dangerzone_rs::page::PageData;

fn page(width: u16, height: u16, pixels: Vec<u8>) -> PageData {
    PageData::new(width, height, pixels).expect("valid page")
}

#[test]
fn round_trip_two_pages() {
    let a = page(2, 1, vec![1, 2, 3, 4, 5, 6]);
    let b = page(1, 2, vec![9, 8, 7, 6, 5, 4]);
    let stream = encode(&vec![a, b]);
    let pages = parse_pixel_data(stream).expect("round trip decodes");
    assert_eq!(pages.len(), 2);
    assert_eq!(pages[0].width, 2);
    assert_eq!(pages[0].height, 1);
    assert_eq!(pages[0].pixels, vec![1, 2, 3, 4, 5, 6]);
    assert_eq!(pages[1].width, 1);
    assert_eq!(pages[1].height, 2);
    assert_eq!(pages[1].pixels, vec![9, 8, 7, 6, 5, 4]);
}

#[test]
fn round_trip_empty_stream() {
    let stream = encode(&vec![]);
    assert!(stream.is_empty());
    let pages = parse_pixel_data(stream).expect("empty stream is a valid empty document");
    assert!(pages.is_empty());
}

#[test]
fn encode_wire_layout_is_little_endian() {
    let p = page(258, 1, vec![0; 258 * 3]);
    let stream = encode(&vec![p]);
    assert_eq!(stream[0], 2);
    assert_eq!(stream[1], 1);
    assert_eq!(stream[2], 1);
    assert_eq!(stream[3], 0);
    assert_eq!(stream.len(), 4 + 258 * 3);
}

#[test]
fn deleting_last_payload_byte_is_truncated_payload() {
    let a = page(1, 1, vec![10, 20, 30]);
    let b = page(2, 2, vec![7; 12]);
    let mut stream = encode(&vec![a, b]);
    stream.pop();
    let r = parse_pixel_data(stream);
    assert!(matches!(r, Err(ConvertError::TruncatedPayload)));
}

#[test]
fn single_page_truncated_payload() {
    let p = page(1, 1, vec![1, 2, 3]);
    let mut stream = encode(&vec![p]);
    stream.pop();
    assert!(matches!(
        parse_pixel_data(stream),
        Err(ConvertError::TruncatedPayload)
    ));
}

#[test]
fn deleting_a_middle_payload_byte_is_still_rejected() {
    // Deleting a byte inside an earlier page shifts the later records,
    // so the decoder misreads the boundary; the stream is still
    // rejected, though the reported error depends on the shifted bytes.
    let a = page(1, 1, vec![5, 0, 0]);
    let b = page(1, 1, vec![0, 0, 7]);
    let mut stream = encode(&vec![a, b]);
    stream.remove(6);
    assert!(matches!(
        parse_pixel_data(stream),
        Err(ConvertError::InvalidDimensions)
    ));
}

#[test]
fn partial_header_is_truncated_header() {
    assert!(matches!(
        parse_pixel_data(vec![1, 0, 1]),
        Err(ConvertError::TruncatedHeader)
    ));
    let p = page(1, 1, vec![1, 2, 3]);
    let mut stream = encode(&vec![p]);
    stream.push(5);
    assert!(matches!(
        parse_pixel_data(stream),
        Err(ConvertError::TruncatedHeader)
    ));
}

#[test]
fn zero_dimension_in_stream_is_invalid() {
    assert!(matches!(
        parse_pixel_data(vec![0, 0, 1, 0]),
        Err(ConvertError::InvalidDimensions)
    ));
    assert!(matches!(
        parse_pixel_data(vec![1, 0, 0, 0]),
        Err(ConvertError::InvalidDimensions)
    ));
}

#[test]
fn oversized_header_is_rejected_without_allocation() {
    // A header claiming 65535 x 65535 pixels declares close to 13 GB of
    // payload; with only a few bytes present decoding must fail on the
    // bounds check instead of trying to materialize it.
    let crafted: Vec<u8> = vec![255, 255, 255, 255, 1, 2, 3, 4, 5];
    assert!(matches!(
        parse_pixel_data(crafted),
        Err(ConvertError::TruncatedPayload)
    ));
}

#[test]
fn page_new_validates() {
    assert!(matches!(
        PageData::new(0, 5, vec![]),
        Err(ConvertError::InvalidDimensions)
    ));
    assert!(matches!(
        PageData::new(5, 0, vec![]),
        Err(ConvertError::InvalidDimensions)
    ));
    assert!(matches!(
        PageData::new(1, 1, vec![1, 2]),
        Err(ConvertError::SizeMismatch)
    ));
    let p = PageData::new(1, 1, vec![1, 2, 3]).expect("well-formed page");
    assert_eq!(p.width, 1);
    assert_eq!(p.height, 1);
    assert_eq!(p.pixels, vec![1, 2, 3]);
}
