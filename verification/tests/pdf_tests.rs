use dangerzone_rs::error::ConvertError;
use dangerzone_rs::page::PageData;
use dangerzone_rs::pdf::assemble;

fn page(width: u16, height: u16, pixels: Vec<u8>) -> PageData {
    PageData::new(width, height, pixels).expect("valid page")
}

fn find(haystack: &[u8], needle: &[u8], from: usize) -> Option<usize> {
    if needle.is_empty() || haystack.len() < needle.len() {
        return None;
    }
    (from..=haystack.len() - needle.len()).find(|&i| &haystack[i..i + needle.len()] == needle)
}

#[test]
fn empty_document_is_rejected() {
    let r = assemble(&vec![]);
    assert!(matches!(r, Err(ConvertError::NoPages)));
}

#[test]
fn single_page_document_structure() {
    let pixels: Vec<u8> = vec![200, 10, 10, 200, 10, 10, 200, 10, 10, 200, 10, 10];
    let p = page(2, 2, pixels.clone());
    let pdf = assemble(&vec![p]).expect("one page assembles");
    assert!(pdf.starts_with(b"%PDF-1.4\n"));
    assert!(pdf.ends_with(b"%%EOF\n"));
    assert!(find(&pdf, b"/Type /Catalog", 0).is_some());
    assert!(find(&pdf, b"/Count 1 >>", 0).is_some());
    assert!(find(&pdf, b"/MediaBox [0 0 2 2]", 0).is_some());
    assert!(find(&pdf, b"/Width 2 /Height 2", 0).is_some());
    assert!(find(&pdf, b"/ColorSpace /DeviceRGB /BitsPerComponent 8 /Length 12", 0).is_some());
    assert!(find(&pdf, &pixels, 0).is_some());
    // Nothing active can be in the output: no fonts, no scripts.
    assert!(find(&pdf, b"/JavaScript", 0).is_none());
    assert!(find(&pdf, b"/Font", 0).is_none());
}

#[test]
fn pages_keep_their_input_order() {
    let a = page(1, 1, vec![11, 12, 13]);
    let b = page(1, 1, vec![21, 22, 23]);
    let c = page(1, 1, vec![31, 32, 33]);
    let pdf = assemble(&vec![a, b, c]).expect("three pages assemble");
    let pa = find(&pdf, &[11, 12, 13], 0).expect("first image embedded");
    let pb = find(&pdf, &[21, 22, 23], 0).expect("second image embedded");
    let pc = find(&pdf, &[31, 32, 33], 0).expect("third image embedded");
    assert!(pa < pb);
    assert!(pb < pc);
    assert!(find(&pdf, b"/Count 3 >>", 0).is_some());
    assert!(find(&pdf, b"/Kids [ 3 0 R 6 0 R 9 0 R ]", 0).is_some());
}

#[test]
fn startxref_points_at_the_xref_table() {
    let p = page(3, 1, vec![0; 9]);
    let pdf = assemble(&vec![p]).expect("assembles");
    let sx = find(&pdf, b"startxref\n", 0).expect("startxref present");
    let num_start = sx + b"startxref\n".len();
    let num_end = find(&pdf, b"\n", num_start).expect("offset line ends");
    let text = std::str::from_utf8(&pdf[num_start..num_end]).expect("ascii offset");
    let off: usize = text.parse().expect("decimal offset");
    assert!(pdf[off..].starts_with(b"xref\n0 6\n"));
}

#[test]
fn xref_entries_match_object_positions() {
    let p = page(1, 2, vec![5; 6]);
    let pdf = assemble(&vec![p]).expect("assembles");
    let xref = find(&pdf, b"xref\n", 0).expect("xref present");
    // Entries start after "xref\n0 6\n" and the free entry line.
    let entries = xref + b"xref\n0 6\n".len() + 20;
    for obj in 0..5usize {
        let line = &pdf[entries + 20 * obj..entries + 20 * obj + 20];
        let text = std::str::from_utf8(&line[..10]).expect("ascii offset");
        let off: usize = text.parse().expect("decimal offset");
        let expect = format!("{} 0 obj\n", obj + 1);
        assert!(pdf[off..].starts_with(expect.as_bytes()));
    }
}
