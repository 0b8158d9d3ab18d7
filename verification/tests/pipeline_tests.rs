use dangerzone_rs::codec::encode;
use dangerzone_rs::error::ConvertError;
use dangerzone_rs::page::PageData;
use dangerzone_rs::pipeline::{Action, Event, Pipeline, WriteTarget};

fn page(width: u16, height: u16, pixels: Vec<u8>) -> PageData {
    PageData::new(width, height, pixels).expect("valid page")
}

fn find(haystack: &[u8], needle: &[u8]) -> Option<usize> {
    if needle.is_empty() || haystack.len() < needle.len() {
        return None;
    }
    (0..=haystack.len() - needle.len()).find(|&i| &haystack[i..i + needle.len()] == needle)
}

#[test]
fn conversion_without_ocr_produces_the_assembled_pdf() {
    let pixels: Vec<u8> = vec![9, 9, 9, 9, 9, 9, 9, 9, 9, 9, 9, 9];
    let stream = encode(&vec![page(2, 2, pixels.clone())]);
    let (mut pipe, first) = Pipeline::new(false);
    assert!(matches!(first, Action::Rasterize));
    let action = pipe.step(Event::Pixels { bytes: stream });
    let pdf = match action {
        Action::Write { target: WriteTarget::Output, bytes } => bytes,
        _ => panic!("expected a write to the output path"),
    };
    assert!(pdf.starts_with(b"%PDF-1.4\n"));
    assert!(find(&pdf, &pixels).is_some());
    let done = pipe.step(Event::Wrote);
    assert!(matches!(done, Action::Finish { result: Ok(()) }));
}

#[test]
fn conversion_with_ocr_runs_ocr_then_cleans_up() {
    let stream = encode(&vec![page(1, 1, vec![1, 2, 3])]);
    let (mut pipe, _) = Pipeline::new(true);
    let action = pipe.step(Event::Pixels { bytes: stream });
    assert!(matches!(
        action,
        Action::Write { target: WriteTarget::Intermediate, .. }
    ));
    assert!(matches!(pipe.step(Event::Wrote), Action::Ocr));
    assert!(matches!(
        pipe.step(Event::OcrDone),
        Action::RemoveIntermediate
    ));
    assert!(matches!(
        pipe.step(Event::Removed),
        Action::Finish { result: Ok(()) }
    ));
}

#[test]
fn ocr_failure_cleans_up_and_reports_it() {
    let stream = encode(&vec![page(1, 1, vec![1, 2, 3])]);
    let (mut pipe, _) = Pipeline::new(true);
    pipe.step(Event::Pixels { bytes: stream });
    pipe.step(Event::Wrote);
    let action = pipe.step(Event::OcrFailed { detail: String::from("engine crashed") });
    assert!(matches!(action, Action::RemoveIntermediate));
    match pipe.step(Event::Removed) {
        Action::Finish { result: Err(ConvertError::OcrFailed(d)) } => {
            assert_eq!(d, "engine crashed");
        },
        _ => panic!("expected the OCR failure to be reported"),
    }
}

#[test]
fn rasterizer_failure_is_reported_opaquely() {
    let (mut pipe, _) = Pipeline::new(false);
    let action = pipe.step(Event::RasterizeFailed { detail: String::from("renderer died") });
    match action {
        Action::Finish { result: Err(ConvertError::RasterizationFailed(d)) } => {
            assert_eq!(d, "renderer died");
        },
        _ => panic!("expected the rasterizer failure to be reported"),
    }
}

#[test]
fn write_failure_finishes_without_success() {
    let stream = encode(&vec![page(1, 1, vec![1, 2, 3])]);
    let (mut pipe, _) = Pipeline::new(false);
    pipe.step(Event::Pixels { bytes: stream });
    let action = pipe.step(Event::WriteFailed);
    assert!(matches!(
        action,
        Action::Finish { result: Err(ConvertError::WriteFailed) }
    ));
}

#[test]
fn empty_stream_finishes_with_no_pages() {
    let (mut pipe, _) = Pipeline::new(false);
    let action = pipe.step(Event::Pixels { bytes: vec![] });
    assert!(matches!(
        action,
        Action::Finish { result: Err(ConvertError::NoPages) }
    ));
}

#[test]
fn garbage_stream_finishes_with_decode_error() {
    let (mut pipe, _) = Pipeline::new(false);
    let action = pipe.step(Event::Pixels { bytes: vec![1, 0] });
    assert!(matches!(
        action,
        Action::Finish { result: Err(ConvertError::TruncatedHeader) }
    ));
}
