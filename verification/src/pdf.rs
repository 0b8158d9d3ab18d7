use vstd::prelude::*;

use crate::codec::views;
use crate::error::ConvertError;
use crate::page::{PageData, PageView};

verus! {

/// Appends the bytes of a slice to the output buffer.
pub fn push_bytes(out: &mut Vec<u8>, s: &[u8])
    ensures
        final(out)@ == old(out)@ + s@,
{
    let mut i: usize = 0;
    while i < s.len()
        invariant
            i <= s@.len(),
            out@ == old(out)@ + s@.take(i as int),
        decreases s@.len() - i,
    {
        out.push(s[i]);
        assert(s@.take(i + 1) =~= s@.take(i as int).push(s@[i as int]));
        assert(out@ =~= old(out)@ + s@.take(i + 1));
        i = i + 1;
    }
    assert(s@.take(s@.len() as int) =~= s@);
}

/// The decimal digits of a number, most significant first, no sign, no
/// leading zeros (zero itself is the single digit `0`).
pub open spec fn dec(n: nat) -> Seq<u8>
    decreases n,
{
    if n < 10 {
        seq![(48 + n) as u8]
    } else {
        dec(n / 10).push((48 + n % 10) as u8)
    }
}

/// The low `width` decimal digits of a number, zero padded.
pub open spec fn dec_pad(n: nat, width: nat) -> Seq<u8>
    decreases width,
{
    if width == 0 {
        Seq::empty()
    } else {
        dec_pad(n / 10, (width - 1) as nat).push((48 + n % 10) as u8)
    }
}

/// Appends the decimal digits of a number.
pub fn push_dec(out: &mut Vec<u8>, n: u128)
    ensures
        final(out)@ == old(out)@ + dec(n as nat),
    decreases n,
{
    if n >= 10 {
        push_dec(out, n / 10);
    }
    out.push(48 + (n % 10) as u8);
    assert(out@ =~= old(out)@ + dec(n as nat));
}

/// Appends the low `width` decimal digits of a number, zero padded.
pub fn push_dec_pad(out: &mut Vec<u8>, n: u64, width: u64)
    ensures
        final(out)@ == old(out)@ + dec_pad(n as nat, width as nat),
    decreases width,
{
    if width == 0 {
        assert(out@ =~= old(out)@ + dec_pad(n as nat, 0));
        return;
    }
    push_dec_pad(out, n / 10, width - 1);
    out.push(48 + (n % 10) as u8);
    assert(out@ =~= old(out)@ + dec_pad(n as nat, width as nat));
}

/// The bytes of `"%PDF-1.4\n"`.
pub open spec fn lit_header() -> Seq<u8> {
    seq![37u8, 80, 68, 70, 45, 49, 46, 52, 10]
}

/// Appends the bytes of `"%PDF-1.4\n"`.
pub fn push_lit_header(out: &mut Vec<u8>)
    ensures
        final(out)@ == old(out)@ + lit_header(),
{
    push_bytes(out, &[37, 80, 68, 70, 45, 49, 46, 52, 10]);
    assert(out@ =~= old(out)@ + lit_header());
}

/// The bytes of `"1 0 obj\n<< /Type /Catalog /Pages 2 0 R >>\nendobj\n"`.
pub open spec fn lit_catalog() -> Seq<u8> {
    seq![49u8, 32, 48, 32, 111, 98, 106, 10, 60, 60, 32, 47, 84, 121, 112, 101, 32, 47, 67, 97, 116, 97, 108, 111, 103, 32, 47, 80, 97, 103, 101, 115, 32, 50, 32, 48, 32, 82, 32, 62, 62, 10, 101, 110, 100, 111, 98, 106, 10]
}

/// Appends the bytes of `"1 0 obj\n<< /Type /Catalog /Pages 2 0 R >>\nendobj\n"`.
pub fn push_lit_catalog(out: &mut Vec<u8>)
    ensures
        final(out)@ == old(out)@ + lit_catalog(),
{
    push_bytes(out, &[49, 32, 48, 32, 111, 98, 106, 10, 60, 60, 32, 47, 84, 121, 112, 101, 32, 47, 67, 97, 116, 97, 108, 111, 103, 32, 47, 80, 97, 103, 101, 115, 32, 50, 32, 48, 32, 82, 32, 62, 62, 10, 101, 110, 100, 111, 98, 106, 10]);
    assert(out@ =~= old(out)@ + lit_catalog());
}

/// The bytes of `"2 0 obj\n<< /Type /Pages /Kids [ "`.
pub open spec fn lit_pages_open() -> Seq<u8> {
    seq![50u8, 32, 48, 32, 111, 98, 106, 10, 60, 60, 32, 47, 84, 121, 112, 101, 32, 47, 80, 97, 103, 101, 115, 32, 47, 75, 105, 100, 115, 32, 91, 32]
}

/// Appends the bytes of `"2 0 obj\n<< /Type /Pages /Kids [ "`.
pub fn push_lit_pages_open(out: &mut Vec<u8>)
    ensures
        final(out)@ == old(out)@ + lit_pages_open(),
{
    push_bytes(out, &[50, 32, 48, 32, 111, 98, 106, 10, 60, 60, 32, 47, 84, 121, 112, 101, 32, 47, 80, 97, 103, 101, 115, 32, 47, 75, 105, 100, 115, 32, 91, 32]);
    assert(out@ =~= old(out)@ + lit_pages_open());
}

/// The bytes of `" 0 R "`.
pub open spec fn lit_kid_ref() -> Seq<u8> {
    seq![32u8, 48, 32, 82, 32]
}

/// Appends the bytes of `" 0 R "`.
pub fn push_lit_kid_ref(out: &mut Vec<u8>)
    ensures
        final(out)@ == old(out)@ + lit_kid_ref(),
{
    push_bytes(out, &[32, 48, 32, 82, 32]);
    assert(out@ =~= old(out)@ + lit_kid_ref());
}

/// The bytes of `"] /Count "`.
pub open spec fn lit_pages_count() -> Seq<u8> {
    seq![93u8, 32, 47, 67, 111, 117, 110, 116, 32]
}

/// Appends the bytes of `"] /Count "`.
pub fn push_lit_pages_count(out: &mut Vec<u8>)
    ensures
        final(out)@ == old(out)@ + lit_pages_count(),
{
    push_bytes(out, &[93, 32, 47, 67, 111, 117, 110, 116, 32]);
    assert(out@ =~= old(out)@ + lit_pages_count());
}

/// The bytes of `" >>\nendobj\n"`.
pub open spec fn lit_dict_close() -> Seq<u8> {
    seq![32u8, 62, 62, 10, 101, 110, 100, 111, 98, 106, 10]
}

/// Appends the bytes of `" >>\nendobj\n"`.
pub fn push_lit_dict_close(out: &mut Vec<u8>)
    ensures
        final(out)@ == old(out)@ + lit_dict_close(),
{
    push_bytes(out, &[32, 62, 62, 10, 101, 110, 100, 111, 98, 106, 10]);
    assert(out@ =~= old(out)@ + lit_dict_close());
}

/// The bytes of `" 0 obj\n<< /Type /Page /Parent 2 0 R /MediaBox [0 0 "`.
pub open spec fn lit_page_open() -> Seq<u8> {
    seq![32u8, 48, 32, 111, 98, 106, 10, 60, 60, 32, 47, 84, 121, 112, 101, 32, 47, 80, 97, 103, 101, 32, 47, 80, 97, 114, 101, 110, 116, 32, 50, 32, 48, 32, 82, 32, 47, 77, 101, 100, 105, 97, 66, 111, 120, 32, 91, 48, 32, 48, 32]
}

/// Appends the bytes of `" 0 obj\n<< /Type /Page /Parent 2 0 R /MediaBox [0 0 "`.
pub fn push_lit_page_open(out: &mut Vec<u8>)
    ensures
        final(out)@ == old(out)@ + lit_page_open(),
{
    push_bytes(out, &[32, 48, 32, 111, 98, 106, 10, 60, 60, 32, 47, 84, 121, 112, 101, 32, 47, 80, 97, 103, 101, 32, 47, 80, 97, 114, 101, 110, 116, 32, 50, 32, 48, 32, 82, 32, 47, 77, 101, 100, 105, 97, 66, 111, 120, 32, 91, 48, 32, 48, 32]);
    assert(out@ =~= old(out)@ + lit_page_open());
}

/// The bytes of `" "`.
pub open spec fn lit_space() -> Seq<u8> {
    seq![32u8]
}

/// Appends the bytes of `" "`.
pub fn push_lit_space(out: &mut Vec<u8>)
    ensures
        final(out)@ == old(out)@ + lit_space(),
{
    push_bytes(out, &[32]);
    assert(out@ =~= old(out)@ + lit_space());
}

/// The bytes of `"] /Resources << /XObject << /Im "`.
pub open spec fn lit_page_resources() -> Seq<u8> {
    seq![93u8, 32, 47, 82, 101, 115, 111, 117, 114, 99, 101, 115, 32, 60, 60, 32, 47, 88, 79, 98, 106, 101, 99, 116, 32, 60, 60, 32, 47, 73, 109, 32]
}

/// Appends the bytes of `"] /Resources << /XObject << /Im "`.
pub fn push_lit_page_resources(out: &mut Vec<u8>)
    ensures
        final(out)@ == old(out)@ + lit_page_resources(),
{
    push_bytes(out, &[93, 32, 47, 82, 101, 115, 111, 117, 114, 99, 101, 115, 32, 60, 60, 32, 47, 88, 79, 98, 106, 101, 99, 116, 32, 60, 60, 32, 47, 73, 109, 32]);
    assert(out@ =~= old(out)@ + lit_page_resources());
}

/// The bytes of `" 0 R >> >> /Contents "`.
pub open spec fn lit_page_contents() -> Seq<u8> {
    seq![32u8, 48, 32, 82, 32, 62, 62, 32, 62, 62, 32, 47, 67, 111, 110, 116, 101, 110, 116, 115, 32]
}

/// Appends the bytes of `" 0 R >> >> /Contents "`.
pub fn push_lit_page_contents(out: &mut Vec<u8>)
    ensures
        final(out)@ == old(out)@ + lit_page_contents(),
{
    push_bytes(out, &[32, 48, 32, 82, 32, 62, 62, 32, 62, 62, 32, 47, 67, 111, 110, 116, 101, 110, 116, 115, 32]);
    assert(out@ =~= old(out)@ + lit_page_contents());
}

/// The bytes of `" 0 R >>\nendobj\n"`.
pub open spec fn lit_page_close() -> Seq<u8> {
    seq![32u8, 48, 32, 82, 32, 62, 62, 10, 101, 110, 100, 111, 98, 106, 10]
}

/// Appends the bytes of `" 0 R >>\nendobj\n"`.
pub fn push_lit_page_close(out: &mut Vec<u8>)
    ensures
        final(out)@ == old(out)@ + lit_page_close(),
{
    push_bytes(out, &[32, 48, 32, 82, 32, 62, 62, 10, 101, 110, 100, 111, 98, 106, 10]);
    assert(out@ =~= old(out)@ + lit_page_close());
}

/// The bytes of `" 0 obj\n<< /Length "`.
pub open spec fn lit_length_open() -> Seq<u8> {
    seq![32u8, 48, 32, 111, 98, 106, 10, 60, 60, 32, 47, 76, 101, 110, 103, 116, 104, 32]
}

/// Appends the bytes of `" 0 obj\n<< /Length "`.
pub fn push_lit_length_open(out: &mut Vec<u8>)
    ensures
        final(out)@ == old(out)@ + lit_length_open(),
{
    push_bytes(out, &[32, 48, 32, 111, 98, 106, 10, 60, 60, 32, 47, 76, 101, 110, 103, 116, 104, 32]);
    assert(out@ =~= old(out)@ + lit_length_open());
}

/// The bytes of `" >>\nstream\n"`.
pub open spec fn lit_stream_open() -> Seq<u8> {
    seq![32u8, 62, 62, 10, 115, 116, 114, 101, 97, 109, 10]
}

/// Appends the bytes of `" >>\nstream\n"`.
pub fn push_lit_stream_open(out: &mut Vec<u8>)
    ensures
        final(out)@ == old(out)@ + lit_stream_open(),
{
    push_bytes(out, &[32, 62, 62, 10, 115, 116, 114, 101, 97, 109, 10]);
    assert(out@ =~= old(out)@ + lit_stream_open());
}

/// The bytes of `"endstream\nendobj\n"`.
pub open spec fn lit_endstream() -> Seq<u8> {
    seq![101u8, 110, 100, 115, 116, 114, 101, 97, 109, 10, 101, 110, 100, 111, 98, 106, 10]
}

/// Appends the bytes of `"endstream\nendobj\n"`.
pub fn push_lit_endstream(out: &mut Vec<u8>)
    ensures
        final(out)@ == old(out)@ + lit_endstream(),
{
    push_bytes(out, &[101, 110, 100, 115, 116, 114, 101, 97, 109, 10, 101, 110, 100, 111, 98, 106, 10]);
    assert(out@ =~= old(out)@ + lit_endstream());
}

/// The bytes of `"q\n"`.
pub open spec fn lit_ops_q() -> Seq<u8> {
    seq![113u8, 10]
}

/// Appends the bytes of `"q\n"`.
pub fn push_lit_ops_q(out: &mut Vec<u8>)
    ensures
        final(out)@ == old(out)@ + lit_ops_q(),
{
    push_bytes(out, &[113, 10]);
    assert(out@ =~= old(out)@ + lit_ops_q());
}

/// The bytes of `" 0 0 "`.
pub open spec fn lit_ops_mid() -> Seq<u8> {
    seq![32u8, 48, 32, 48, 32]
}

/// Appends the bytes of `" 0 0 "`.
pub fn push_lit_ops_mid(out: &mut Vec<u8>)
    ensures
        final(out)@ == old(out)@ + lit_ops_mid(),
{
    push_bytes(out, &[32, 48, 32, 48, 32]);
    assert(out@ =~= old(out)@ + lit_ops_mid());
}

/// The bytes of `" 0 0 cm\n/Im Do\nQ\n"`.
pub open spec fn lit_ops_close() -> Seq<u8> {
    seq![32u8, 48, 32, 48, 32, 99, 109, 10, 47, 73, 109, 32, 68, 111, 10, 81, 10]
}

/// Appends the bytes of `" 0 0 cm\n/Im Do\nQ\n"`.
pub fn push_lit_ops_close(out: &mut Vec<u8>)
    ensures
        final(out)@ == old(out)@ + lit_ops_close(),
{
    push_bytes(out, &[32, 48, 32, 48, 32, 99, 109, 10, 47, 73, 109, 32, 68, 111, 10, 81, 10]);
    assert(out@ =~= old(out)@ + lit_ops_close());
}

/// The bytes of `" 0 obj\n<< /Type /XObject /Subtype /Image /Width "`.
pub open spec fn lit_image_open() -> Seq<u8> {
    seq![32u8, 48, 32, 111, 98, 106, 10, 60, 60, 32, 47, 84, 121, 112, 101, 32, 47, 88, 79, 98, 106, 101, 99, 116, 32, 47, 83, 117, 98, 116, 121, 112, 101, 32, 47, 73, 109, 97, 103, 101, 32, 47, 87, 105, 100, 116, 104, 32]
}

/// Appends the bytes of `" 0 obj\n<< /Type /XObject /Subtype /Image /Width "`.
pub fn push_lit_image_open(out: &mut Vec<u8>)
    ensures
        final(out)@ == old(out)@ + lit_image_open(),
{
    push_bytes(out, &[32, 48, 32, 111, 98, 106, 10, 60, 60, 32, 47, 84, 121, 112, 101, 32, 47, 88, 79, 98, 106, 101, 99, 116, 32, 47, 83, 117, 98, 116, 121, 112, 101, 32, 47, 73, 109, 97, 103, 101, 32, 47, 87, 105, 100, 116, 104, 32]);
    assert(out@ =~= old(out)@ + lit_image_open());
}

/// The bytes of `" /Height "`.
pub open spec fn lit_image_height() -> Seq<u8> {
    seq![32u8, 47, 72, 101, 105, 103, 104, 116, 32]
}

/// Appends the bytes of `" /Height "`.
pub fn push_lit_image_height(out: &mut Vec<u8>)
    ensures
        final(out)@ == old(out)@ + lit_image_height(),
{
    push_bytes(out, &[32, 47, 72, 101, 105, 103, 104, 116, 32]);
    assert(out@ =~= old(out)@ + lit_image_height());
}

/// The bytes of `" /ColorSpace /DeviceRGB /BitsPerComponent 8 /Length "`.
pub open spec fn lit_image_tail() -> Seq<u8> {
    seq![32u8, 47, 67, 111, 108, 111, 114, 83, 112, 97, 99, 101, 32, 47, 68, 101, 118, 105, 99, 101, 82, 71, 66, 32, 47, 66, 105, 116, 115, 80, 101, 114, 67, 111, 109, 112, 111, 110, 101, 110, 116, 32, 56, 32, 47, 76, 101, 110, 103, 116, 104, 32]
}

/// Appends the bytes of `" /ColorSpace /DeviceRGB /BitsPerComponent 8 /Length "`.
pub fn push_lit_image_tail(out: &mut Vec<u8>)
    ensures
        final(out)@ == old(out)@ + lit_image_tail(),
{
    push_bytes(out, &[32, 47, 67, 111, 108, 111, 114, 83, 112, 97, 99, 101, 32, 47, 68, 101, 118, 105, 99, 101, 82, 71, 66, 32, 47, 66, 105, 116, 115, 80, 101, 114, 67, 111, 109, 112, 111, 110, 101, 110, 116, 32, 56, 32, 47, 76, 101, 110, 103, 116, 104, 32]);
    assert(out@ =~= old(out)@ + lit_image_tail());
}

/// The bytes of `"\nendstream\nendobj\n"`.
pub open spec fn lit_image_endstream() -> Seq<u8> {
    seq![10u8, 101, 110, 100, 115, 116, 114, 101, 97, 109, 10, 101, 110, 100, 111, 98, 106, 10]
}

/// Appends the bytes of `"\nendstream\nendobj\n"`.
pub fn push_lit_image_endstream(out: &mut Vec<u8>)
    ensures
        final(out)@ == old(out)@ + lit_image_endstream(),
{
    push_bytes(out, &[10, 101, 110, 100, 115, 116, 114, 101, 97, 109, 10, 101, 110, 100, 111, 98, 106, 10]);
    assert(out@ =~= old(out)@ + lit_image_endstream());
}

/// The bytes of `"xref\n0 "`.
pub open spec fn lit_xref_open() -> Seq<u8> {
    seq![120u8, 114, 101, 102, 10, 48, 32]
}

/// Appends the bytes of `"xref\n0 "`.
pub fn push_lit_xref_open(out: &mut Vec<u8>)
    ensures
        final(out)@ == old(out)@ + lit_xref_open(),
{
    push_bytes(out, &[120, 114, 101, 102, 10, 48, 32]);
    assert(out@ =~= old(out)@ + lit_xref_open());
}

/// The bytes of `"\n"`.
pub open spec fn lit_newline() -> Seq<u8> {
    seq![10u8]
}

/// Appends the bytes of `"\n"`.
pub fn push_lit_newline(out: &mut Vec<u8>)
    ensures
        final(out)@ == old(out)@ + lit_newline(),
{
    push_bytes(out, &[10]);
    assert(out@ =~= old(out)@ + lit_newline());
}

/// The bytes of `"0000000000 65535 f \n"`.
pub open spec fn lit_xref_free() -> Seq<u8> {
    seq![48u8, 48, 48, 48, 48, 48, 48, 48, 48, 48, 32, 54, 53, 53, 51, 53, 32, 102, 32, 10]
}

/// Appends the bytes of `"0000000000 65535 f \n"`.
pub fn push_lit_xref_free(out: &mut Vec<u8>)
    ensures
        final(out)@ == old(out)@ + lit_xref_free(),
{
    push_bytes(out, &[48, 48, 48, 48, 48, 48, 48, 48, 48, 48, 32, 54, 53, 53, 51, 53, 32, 102, 32, 10]);
    assert(out@ =~= old(out)@ + lit_xref_free());
}

/// The bytes of `" 00000 n \n"`.
pub open spec fn lit_xref_entry_tail() -> Seq<u8> {
    seq![32u8, 48, 48, 48, 48, 48, 32, 110, 32, 10]
}

/// Appends the bytes of `" 00000 n \n"`.
pub fn push_lit_xref_entry_tail(out: &mut Vec<u8>)
    ensures
        final(out)@ == old(out)@ + lit_xref_entry_tail(),
{
    push_bytes(out, &[32, 48, 48, 48, 48, 48, 32, 110, 32, 10]);
    assert(out@ =~= old(out)@ + lit_xref_entry_tail());
}

/// The bytes of `"trailer\n<< /Size "`.
pub open spec fn lit_trailer_open() -> Seq<u8> {
    seq![116u8, 114, 97, 105, 108, 101, 114, 10, 60, 60, 32, 47, 83, 105, 122, 101, 32]
}

/// Appends the bytes of `"trailer\n<< /Size "`.
pub fn push_lit_trailer_open(out: &mut Vec<u8>)
    ensures
        final(out)@ == old(out)@ + lit_trailer_open(),
{
    push_bytes(out, &[116, 114, 97, 105, 108, 101, 114, 10, 60, 60, 32, 47, 83, 105, 122, 101, 32]);
    assert(out@ =~= old(out)@ + lit_trailer_open());
}

/// The bytes of `" /Root 1 0 R >>\nstartxref\n"`.
pub open spec fn lit_trailer_root() -> Seq<u8> {
    seq![32u8, 47, 82, 111, 111, 116, 32, 49, 32, 48, 32, 82, 32, 62, 62, 10, 115, 116, 97, 114, 116, 120, 114, 101, 102, 10]
}

/// Appends the bytes of `" /Root 1 0 R >>\nstartxref\n"`.
pub fn push_lit_trailer_root(out: &mut Vec<u8>)
    ensures
        final(out)@ == old(out)@ + lit_trailer_root(),
{
    push_bytes(out, &[32, 47, 82, 111, 111, 116, 32, 49, 32, 48, 32, 82, 32, 62, 62, 10, 115, 116, 97, 114, 116, 120, 114, 101, 102, 10]);
    assert(out@ =~= old(out)@ + lit_trailer_root());
}

/// The bytes of `"\n%%EOF\n"`.
pub open spec fn lit_eof() -> Seq<u8> {
    seq![10u8, 37, 37, 69, 79, 70, 10]
}

/// Appends the bytes of `"\n%%EOF\n"`.
pub fn push_lit_eof(out: &mut Vec<u8>)
    ensures
        final(out)@ == old(out)@ + lit_eof(),
{
    push_bytes(out, &[10, 37, 37, 69, 79, 70, 10]);
    assert(out@ =~= old(out)@ + lit_eof());
}
/// The page object of page `k` (zero-based): its media box matches the
/// pixel dimensions, one pixel per user-space unit, and its only
/// resource is the page's own image object.
pub open spec fn page_object(k: nat, p: PageView) -> Seq<u8> {
    dec(3 * k + 3) + lit_page_open() + dec(p.width) + lit_space() + dec(p.height)
        + lit_page_resources() + dec(3 * k + 5) + lit_page_contents() + dec(3 * k + 4)
        + lit_page_close()
}

/// The drawing operators of page `k`'s content stream: scale the unit
/// image square to the full media box and paint the image, nothing else.
pub open spec fn content_ops(p: PageView) -> Seq<u8> {
    lit_ops_q() + dec(p.width) + lit_ops_mid() + dec(p.height) + lit_ops_close()
}

/// The content stream object of page `k`.
pub open spec fn content_object(k: nat, p: PageView) -> Seq<u8> {
    dec(3 * k + 4) + lit_length_open() + dec(content_ops(p).len()) + lit_stream_open()
        + content_ops(p) + lit_endstream()
}

/// The image object of page `k`: an uncompressed full-page RGB raster
/// holding exactly the page's sample bytes.
pub open spec fn image_object(k: nat, p: PageView) -> Seq<u8> {
    dec(3 * k + 5) + lit_image_open() + dec(p.width) + lit_image_height() + dec(p.height)
        + lit_image_tail() + dec(p.pixels.len()) + lit_stream_open() + p.pixels
        + lit_image_endstream()
}

/// The three objects of page `k`, emitted together.
pub open spec fn page_chunk(k: nat, p: PageView) -> Seq<u8> {
    page_object(k, p) + content_object(k, p) + image_object(k, p)
}

/// The objects of the first `n` pages, in page order.
pub open spec fn chunks(pages: Seq<PageView>, n: nat) -> Seq<u8>
    decreases n,
{
    if n == 0 {
        Seq::empty()
    } else {
        chunks(pages, (n - 1) as nat) + page_chunk((n - 1) as nat, pages[n - 1])
    }
}

/// The references to the first `n` page objects, in page order.
pub open spec fn kid_refs(n: nat) -> Seq<u8>
    decreases n,
{
    if n == 0 {
        Seq::empty()
    } else {
        kid_refs((n - 1) as nat) + dec((3 * (n - 1) + 3) as nat) + lit_kid_ref()
    }
}

/// The page-tree object: the page objects in order, and the page count.
pub open spec fn pages_object(n: nat) -> Seq<u8> {
    lit_pages_open() + kid_refs(n) + lit_pages_count() + dec(n) + lit_dict_close()
}

/// Everything before the first page's objects: the version header, the
/// document catalog and the page tree.
pub open spec fn preamble(n: nat) -> Seq<u8> {
    lit_header() + lit_catalog() + pages_object(n)
}

/// The byte offsets of objects 1 and 2 and of the first `n` pages'
/// objects, in object-number order.
pub open spec fn offsets(pages: Seq<PageView>, n: nat) -> Seq<nat>
    decreases n,
{
    if n == 0 {
        seq![lit_header().len(), lit_header().len() + lit_catalog().len()]
    } else {
        let k = (n - 1) as nat;
        let start = preamble(pages.len()).len() + chunks(pages, k).len();
        offsets(pages, k) + seq![
            start,
            start + page_object(k, pages[k as int]).len(),
            start + page_object(k, pages[k as int]).len() + content_object(
                k,
                pages[k as int],
            ).len(),
        ]
    }
}

/// One cross-reference entry per offset, in order.
pub open spec fn xref_entries(offs: Seq<nat>) -> Seq<u8>
    decreases offs.len(),
{
    if offs.len() == 0 {
        Seq::empty()
    } else {
        xref_entries(offs.drop_last()) + dec_pad(offs.last(), 10) + lit_xref_entry_tail()
    }
}

/// The cross-reference table: the free entry for object 0, then one
/// entry per object.
pub open spec fn xref_table(pages: Seq<PageView>) -> Seq<u8> {
    lit_xref_open() + dec(3 * pages.len() + 3) + lit_newline() + lit_xref_free() + xref_entries(
        offsets(pages, pages.len()),
    )
}

/// The trailer: the object count, the catalog reference, and where the
/// cross-reference table starts.
pub open spec fn trailer(pages: Seq<PageView>) -> Seq<u8> {
    lit_trailer_open() + dec(3 * pages.len() + 3) + lit_trailer_root() + dec(
        preamble(pages.len()).len() + chunks(pages, pages.len()).len(),
    ) + lit_eof()
}

/// The whole reassembled document: one page per input page, in input
/// order, each a single full-bleed uncompressed raster image of that
/// page's pixels; no fonts, no scripts, no interactive features, no
/// embedded files.
pub open spec fn pdf_file(pages: Seq<PageView>) -> Seq<u8> {
    preamble(pages.len()) + chunks(pages, pages.len()) + xref_table(pages) + trailer(pages)
}

/// Concatenation of sequences is associative.
pub proof fn lemma_seq_add_assoc<A>(a: Seq<A>, b: Seq<A>, c: Seq<A>)
    ensures
        (a + b) + c == a + (b + c),
{
    assert((a + b) + c =~= a + (b + c));
}

/// The numeric values of recorded offsets.
pub open spec fn nats_of(s: Seq<u64>) -> Seq<nat> {
    s.map_values(|x: u64| x as nat)
}

/// Appends the page object of page `k`.
fn push_page_object(out: &mut Vec<u8>, k: usize, p: &PageData)
    ensures
        final(out)@ == old(out)@ + page_object(k as nat, p@),
{
    push_dec(out, 3 * (k as u128) + 3);
    push_lit_page_open(out);
    push_dec(out, p.width as u128);
    push_lit_space(out);
    push_dec(out, p.height as u128);
    push_lit_page_resources(out);
    push_dec(out, 3 * (k as u128) + 5);
    push_lit_page_contents(out);
    push_dec(out, 3 * (k as u128) + 4);
    push_lit_page_close(out);
    assert(out@ =~= old(out)@ + page_object(k as nat, p@));
}

/// Builds the drawing operators of one page's content stream.
fn build_content_ops(p: &PageData) -> (r: Vec<u8>)
    ensures
        r@ == content_ops(p@),
{
    let mut ops: Vec<u8> = Vec::new();
    push_lit_ops_q(&mut ops);
    push_dec(&mut ops, p.width as u128);
    push_lit_ops_mid(&mut ops);
    push_dec(&mut ops, p.height as u128);
    push_lit_ops_close(&mut ops);
    assert(ops@ =~= content_ops(p@));
    ops
}

/// Appends the content stream object of page `k`.
fn push_content_object(out: &mut Vec<u8>, k: usize, p: &PageData)
    ensures
        final(out)@ == old(out)@ + content_object(k as nat, p@),
{
    push_dec(out, 3 * (k as u128) + 4);
    push_lit_length_open(out);
    let ops = build_content_ops(p);
    push_dec(out, ops.len() as u128);
    push_lit_stream_open(out);
    push_bytes(out, ops.as_slice());
    push_lit_endstream(out);
    assert(out@ =~= old(out)@ + content_object(k as nat, p@));
}

/// Appends the image object of page `k`.
fn push_image_object(out: &mut Vec<u8>, k: usize, p: &PageData)
    ensures
        final(out)@ == old(out)@ + image_object(k as nat, p@),
{
    push_dec(out, 3 * (k as u128) + 5);
    push_lit_image_open(out);
    push_dec(out, p.width as u128);
    push_lit_image_height(out);
    push_dec(out, p.height as u128);
    push_lit_image_tail(out);
    push_dec(out, p.pixels.len() as u128);
    push_lit_stream_open(out);
    push_bytes(out, p.pixels.as_slice());
    push_lit_image_endstream(out);
    assert(out@ =~= old(out)@ + image_object(k as nat, p@));
}

/// Appends the page-tree object for `n` pages.
fn push_pages_object(out: &mut Vec<u8>, n: usize)
    ensures
        final(out)@ == old(out)@ + pages_object(n as nat),
{
    push_lit_pages_open(out);
    assert(out@ =~= old(out)@ + lit_pages_open() + kid_refs(0));
    let mut k: usize = 0;
    while k < n
        invariant
            k <= n,
            out@ == old(out)@ + lit_pages_open() + kid_refs(k as nat),
        decreases n - k,
    {
        push_dec(out, 3 * (k as u128) + 3);
        push_lit_kid_ref(out);
        assert(out@ =~= old(out)@ + lit_pages_open() + kid_refs((k + 1) as nat));
        k = k + 1;
    }
    push_lit_pages_count(out);
    push_dec(out, n as u128);
    push_lit_dict_close(out);
    assert(out@ =~= old(out)@ + pages_object(n as nat));
}

/// Appends the cross-reference table and the trailer to a buffer that
/// already holds the preamble and every page's objects.
#[verifier::rlimit(60)]
fn push_file_tail(out: &mut Vec<u8>, offs: &Vec<u64>, n: usize, Ghost(gpages): Ghost<
    Seq<PageView>,
>)
    requires
        gpages.len() == n,
        old(out)@ == preamble(n as nat) + chunks(gpages, n as nat),
        nats_of(offs@) == offsets(gpages, n as nat),
    ensures
        final(out)@ == pdf_file(gpages),
{
    let xref_at = out.len();
    push_lit_xref_open(out);
    push_dec(out, 3 * (n as u128) + 3);
    push_lit_newline(out);
    push_lit_xref_free(out);
    let ghost xref_head = out@;
    let mut i: usize = 0;
    while i < offs.len()
        invariant
            i <= offs@.len(),
            nats_of(offs@) == offsets(gpages, n as nat),
            out@ == xref_head + xref_entries(nats_of(offs@).take(i as int)),
        decreases offs@.len() - i,
    {
        push_dec_pad(out, offs[i], 10);
        push_lit_xref_entry_tail(out);
        proof {
            assert(nats_of(offs@).take(i + 1).drop_last() =~= nats_of(offs@).take(i as int));
            assert(nats_of(offs@).take(i + 1).last() == offs@[i as int] as nat);
            assert(out@ =~= xref_head + xref_entries(nats_of(offs@).take(i + 1)));
        }
        i = i + 1;
    }
    proof {
        assert(nats_of(offs@).take(offs@.len() as int) =~= nats_of(offs@));
        assert(out@ =~= preamble(n as nat) + chunks(gpages, n as nat) + xref_table(gpages));
    }
    push_lit_trailer_open(out);
    push_dec(out, 3 * (n as u128) + 3);
    push_lit_trailer_root(out);
    push_dec(out, xref_at as u128);
    push_lit_eof(out);
    proof {
        assert(xref_at as nat == preamble(n as nat).len() + chunks(gpages, n as nat).len());
        assert(out@ =~= pdf_file(gpages));
    }
}

/// Reassembles validated pages into a complete PDF, in input order. An
/// empty document is rejected rather than written as a zero-page file.
/// The output bytes are exactly the document that `pdf_file` describes;
/// in particular every page's sample bytes are embedded unchanged, and
/// pages keep their input order.
#[verifier::rlimit(60)]
pub fn assemble(pages: &Vec<PageData>) -> (r: Result<Vec<u8>, ConvertError>)
    ensures
        match r {
            Ok(bytes) => pages@.len() > 0 && bytes@ == pdf_file(views(pages@)),
            Err(e) => pages@.len() == 0 && e == ConvertError::NoPages,
        },
{
    let n = pages.len();
    if n == 0 {
        return Err(ConvertError::NoPages);
    }
    let ghost gpages = views(pages@);
    let mut out: Vec<u8> = Vec::new();
    let mut offs: Vec<u64> = Vec::new();
    push_lit_header(&mut out);
    offs.push(out.len() as u64);
    push_lit_catalog(&mut out);
    offs.push(out.len() as u64);
    push_pages_object(&mut out, n);
    proof {
        assert(out@ =~= preamble(n as nat) + chunks(gpages, 0));
        assert(nats_of(offs@) =~= offsets(gpages, 0));
    }
    let mut k: usize = 0;
    while k < n
        invariant
            k <= n,
            n == pages@.len(),
            gpages == views(pages@),
            gpages.len() == n,
            out@ == preamble(n as nat) + chunks(gpages, k as nat),
            nats_of(offs@) == offsets(gpages, k as nat),
        decreases n - k,
    {
        let ghost offs0 = offs@;
        let ghost s0 = out@.len();
        offs.push(out.len() as u64);
        let p = &pages[k];
        push_page_object(&mut out, k, p);
        let ghost s1 = out@.len();
        offs.push(out.len() as u64);
        push_content_object(&mut out, k, p);
        let ghost s2 = out@.len();
        offs.push(out.len() as u64);
        push_image_object(&mut out, k, p);
        proof {
            let gp = gpages[k as int];
            assert(gp == pages@[k as int]@);
            let pre = preamble(n as nat);
            let ck = chunks(gpages, k as nat);
            let po = page_object(k as nat, gp);
            let co = content_object(k as nat, gp);
            let io = image_object(k as nat, gp);
            lemma_seq_add_assoc(pre + ck, po, co);
            lemma_seq_add_assoc(pre + ck, po + co, io);
            lemma_seq_add_assoc(pre, ck, (po + co) + io);
            assert(page_chunk(k as nat, gp) == (po + co) + io);
            assert(chunks(gpages, (k + 1) as nat) == ck + page_chunk(k as nat, gp));
            assert(out@ == pre + chunks(gpages, (k + 1) as nat));
            assert(offs@ == offs0.push(s0 as u64).push(s1 as u64).push(s2 as u64));
            assert(nats_of(offs@) =~= nats_of(offs0) + seq![s0, s1, s2]);
            assert(s0 == pre.len() + ck.len());
            assert(s1 == pre.len() + ck.len() + po.len());
            assert(s2 == pre.len() + ck.len() + po.len() + co.len());
            assert(offsets(gpages, (k + 1) as nat) == offsets(gpages, k as nat) + seq![
                s0,
                s1,
                s2,
            ]);
        }
        k = k + 1;
    }
    push_file_tail(&mut out, &offs, n, Ghost(gpages));
    Ok(out)
}

/// Where page `k`'s sample bytes begin inside the reassembled document.
pub open spec fn image_data_start(pages: Seq<PageView>, k: nat) -> nat {
    preamble(pages.len()).len() + chunks(pages, k).len() + page_object(k, pages[k as int]).len()
        + content_object(k, pages[k as int]).len() + dec(3 * k + 5).len() + lit_image_open().len()
        + dec(pages[k as int].width).len() + lit_image_height().len() + dec(
        pages[k as int].height,
    ).len() + lit_image_tail().len() + dec(pages[k as int].pixels.len()).len()
        + lit_stream_open().len()
}

/// The objects of the first `k` pages sit unchanged at the front of the
/// objects of the first `n` pages, with page `k`'s own objects right
/// after them.
pub proof fn lemma_chunk_slice(pages: Seq<PageView>, k: nat, n: nat)
    requires
        k < n,
    ensures
        chunks(pages, k).len() + page_chunk(k, pages[k as int]).len() <= chunks(pages, n).len(),
        chunks(pages, n).subrange(
            chunks(pages, k).len() as int,
            (chunks(pages, k).len() + page_chunk(k, pages[k as int]).len()) as int,
        ) == page_chunk(k, pages[k as int]),
    decreases n,
{
    let lo = chunks(pages, k).len();
    let len = page_chunk(k, pages[k as int]).len();
    if n == k + 1 {
        assert(chunks(pages, n) == chunks(pages, k) + page_chunk(k, pages[k as int]));
        assert(chunks(pages, n).subrange(lo as int, (lo + len) as int) =~= page_chunk(k, pages[k as int]));
    } else {
        lemma_chunk_slice(pages, k, (n - 1) as nat);
        let a = chunks(pages, (n - 1) as nat);
        assert(chunks(pages, n) == a + page_chunk((n - 1) as nat, pages[n - 1]));
        assert(chunks(pages, n).subrange(lo as int, (lo + len) as int) =~= a.subrange(lo as int, (lo + len) as int));
    }
}

/// Inside one page's objects, the sample bytes sit right after the image
/// object's dictionary and stream keyword.
pub proof fn lemma_chunk_pixels(k: nat, p: PageView)
    ensures
        ({
            let pc = page_chunk(k, p);
            let inner = page_object(k, p).len() + content_object(k, p).len() + dec(
                3 * k + 5,
            ).len() + lit_image_open().len() + dec(p.width).len() + lit_image_height().len() + dec(
                p.height,
            ).len() + lit_image_tail().len() + dec(p.pixels.len()).len() + lit_stream_open().len();
            &&& inner + p.pixels.len() <= pc.len()
            &&& pc.subrange(inner as int, (inner + p.pixels.len()) as int) == p.pixels
        }),
{
    let pc = page_chunk(k, p);
    let inner = page_object(k, p).len() + content_object(k, p).len() + dec(3 * k + 5).len()
        + lit_image_open().len() + dec(p.width).len() + lit_image_height().len() + dec(
        p.height,
    ).len() + lit_image_tail().len() + dec(p.pixels.len()).len() + lit_stream_open().len();
    assert(pc.subrange(inner as int, (inner + p.pixels.len()) as int) =~= p.pixels);
}

/// A window that lies inside the left part of a concatenation reads the
/// same bytes there.
pub proof fn lemma_subrange_in_left<A>(a: Seq<A>, b: Seq<A>, lo: int, hi: int)
    requires
        0 <= lo <= hi <= a.len(),
    ensures
        (a + b).subrange(lo, hi) == a.subrange(lo, hi),
{
    assert((a + b).subrange(lo, hi) =~= a.subrange(lo, hi));
}

/// A window that lies inside the right part of a concatenation reads the
/// same bytes there.
pub proof fn lemma_subrange_in_right<A>(a: Seq<A>, b: Seq<A>, lo: int, hi: int)
    requires
        0 <= lo <= hi <= b.len(),
    ensures
        (a + b).subrange(a.len() + lo, a.len() + hi) == b.subrange(lo, hi),
{
    assert((a + b).subrange(a.len() + lo, a.len() + hi) =~= b.subrange(lo, hi));
}

/// A window of a window is a window of the whole.
pub proof fn lemma_subrange_of_subrange<A>(s: Seq<A>, a: int, b: int, lo: int, hi: int)
    requires
        0 <= a <= b <= s.len(),
        0 <= lo <= hi <= b - a,
    ensures
        s.subrange(a, b).subrange(lo, hi) == s.subrange(a + lo, a + hi),
{
    assert(s.subrange(a, b).subrange(lo, hi) =~= s.subrange(a + lo, a + hi));
}

/// Page order preservation: page `k`'s sample bytes are embedded
/// unchanged in the reassembled document, and the embedded images of
/// consecutive pages appear in input order, without overlap.
pub proof fn lemma_page_order(pages: Seq<PageView>, k: int)
    requires
        0 <= k < pages.len(),
    ensures
        ({
            let off = image_data_start(pages, k as nat);
            let pix = pages[k].pixels;
            &&& off + pix.len() <= pdf_file(pages).len()
            &&& pdf_file(pages).subrange(off as int, (off + pix.len()) as int) == pix
            &&& k > 0 ==> image_data_start(pages, (k - 1) as nat) + pages[k - 1].pixels.len()
                <= off
        }),
{
    let n = pages.len();
    let p = pages[k];
    let pix = p.pixels;
    let len = pix.len() as int;
    let pre = preamble(n);
    let call = chunks(pages, n);
    let pc = page_chunk(k as nat, p);
    let pcoff = chunks(pages, k as nat).len() as int;
    let inner = (page_object(k as nat, p).len() + content_object(k as nat, p).len() + dec(
        3 * (k as nat) + 5,
    ).len() + lit_image_open().len() + dec(p.width).len() + lit_image_height().len() + dec(
        p.height,
    ).len() + lit_image_tail().len() + dec(p.pixels.len()).len() + lit_stream_open().len()) as int;
    let off = image_data_start(pages, k as nat);
    lemma_chunk_slice(pages, k as nat, n);
    lemma_chunk_pixels(k as nat, p);
    assert(off == pre.len() + pcoff + inner);
    lemma_subrange_of_subrange(call, pcoff, pcoff + pc.len(), inner, inner + len);
    assert(call.subrange(pcoff + inner, pcoff + inner + len) == pix);
    assert(pdf_file(pages) == ((pre + call) + xref_table(pages)) + trailer(pages));
    assert(off + len <= pre.len() + call.len());
    lemma_subrange_in_left((pre + call) + xref_table(pages), trailer(pages), off as int, off + len);
    lemma_subrange_in_left(pre + call, xref_table(pages), off as int, off + len);
    lemma_subrange_in_right(pre, call, pcoff + inner, pcoff + inner + len);
    if k > 0 {
        let q = pages[k - 1];
        let j = (k - 1) as nat;
        assert(chunks(pages, k as nat) == chunks(pages, j) + page_chunk(j, q));
        assert(image_object(j, q).len() == dec(3 * j + 5).len() + lit_image_open().len() + dec(
            q.width,
        ).len() + lit_image_height().len() + dec(q.height).len() + lit_image_tail().len() + dec(
            q.pixels.len(),
        ).len() + lit_stream_open().len() + q.pixels.len() + lit_image_endstream().len());
    }
}

} // verus!
