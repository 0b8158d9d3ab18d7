use vstd::prelude::*;

use crate::error::ConvertError;
use crate::page::{lemma_payload_bound, PageData, PageView, CHANNELS};

verus! {

/// Number of bytes in a record header: width then height, each two bytes
/// little-endian.
pub const HEADER_LEN: usize = 4;

/// The two little-endian bytes of a 16-bit value.
pub open spec fn le16_bytes(v: nat) -> Seq<u8> {
    seq![(v % 256) as u8, ((v / 256) % 256) as u8]
}

/// The value read back from two little-endian bytes.
pub open spec fn le16_value(lo: u8, hi: u8) -> nat {
    lo as nat + 256 * (hi as nat)
}

/// The wire record of one page: its header followed by its raw samples.
pub open spec fn record_of(p: PageView) -> Seq<u8> {
    le16_bytes(p.width) + le16_bytes(p.height) + p.pixels
}

/// The wire form of a whole document: the records of its pages, in page
/// order, with no separators, no page count prefix and no checksum.
pub open spec fn encoded(pages: Seq<PageView>) -> Seq<u8>
    decreases pages.len(),
{
    if pages.len() == 0 {
        Seq::empty()
    } else {
        record_of(pages[0]) + encoded(pages.drop_first())
    }
}

/// Every page of the sequence is well formed.
pub open spec fn wf_pages(pages: Seq<PageView>) -> bool {
    forall|i: int| 0 <= i < pages.len() ==> (#[trigger] pages[i]).wf()
}

/// The abstract pages of a vector of page values.
pub open spec fn views(pages: Seq<PageData>) -> Seq<PageView> {
    pages.map_values(|p: PageData| p@)
}

/// What decoding a byte stream yields: the page sequence whose records,
/// read front to back, exactly cover the stream, or the error of the
/// first unreadable record. A record whose declared payload cannot be
/// addressed on this machine is oversized; one whose payload runs past
/// the end of the stream is truncated.
pub open spec fn decode_spec(data: Seq<u8>) -> Result<Seq<PageView>, ConvertError>
    decreases data.len(),
{
    if data.len() == 0 {
        Ok(Seq::empty())
    } else if data.len() < HEADER_LEN {
        Err(ConvertError::TruncatedHeader)
    } else {
        let w = le16_value(data[0], data[1]);
        let h = le16_value(data[2], data[3]);
        if w == 0 || h == 0 {
            Err(ConvertError::InvalidDimensions)
        } else {
            let need = w * h * (CHANNELS as nat);
            if need > usize::MAX {
                Err(ConvertError::OversizedRecord)
            } else if data.len() - HEADER_LEN < need {
                Err(ConvertError::TruncatedPayload)
            } else {
                match decode_spec(data.skip(HEADER_LEN + need)) {
                    Ok(rest) => Ok(
                        seq![
                            PageView {
                                width: w,
                                height: h,
                                pixels: data.subrange(HEADER_LEN as int, HEADER_LEN + need),
                            },
                        ] + rest,
                    ),
                    Err(e) => Err(e),
                }
            }
        }
    }
}

/// The result of decoding a suffix, seen from the whole stream: pages
/// already decoded come first, and an error swallows them all.
pub open spec fn decode_after(
    prefix: Seq<PageView>,
    r: Result<Seq<PageView>, ConvertError>,
) -> Result<Seq<PageView>, ConvertError> {
    match r {
        Ok(rest) => Ok(prefix + rest),
        Err(e) => Err(e),
    }
}

/// Serializes pages for transport across the trust boundary: each page's
/// header then payload, in input order. Deterministic; the output is
/// exactly the concatenation of the page records.
pub fn encode(pages: &Vec<PageData>) -> (r: Vec<u8>)
    ensures
        r@ == encoded(views(pages@)),
{
    let mut out: Vec<u8> = Vec::new();
    let mut i: usize = 0;
    while i < pages.len()
        invariant
            i <= pages@.len(),
            out@ == encoded(views(pages@).take(i as int)),
        decreases pages@.len() - i,
    {
        let ghost done = views(pages@).take(i as int);
        let p = &pages[i];
        out.push((p.width % 256) as u8);
        out.push((p.width / 256) as u8);
        out.push((p.height % 256) as u8);
        out.push((p.height / 256) as u8);
        let mut j: usize = 0;
        while j < p.pixels.len()
            invariant
                j <= p.pixels@.len(),
                out@ == encoded(done) + le16_bytes(p@.width) + le16_bytes(p@.height)
                    + p.pixels@.take(j as int),
            decreases p.pixels@.len() - j,
        {
            out.push(p.pixels[j]);
            assert(p.pixels@.take(j + 1) =~= p.pixels@.take(j as int).push(p.pixels@[j as int]));
            j = j + 1;
        }
        proof {
            assert(p.pixels@.take(p.pixels@.len() as int) =~= p.pixels@);
            lemma_encoded_push(done, p@);
            assert(views(pages@).take(i + 1) =~= done.push(p@));
            assert(out@ =~= encoded(done) + record_of(p@));
        }
        i = i + 1;
    }
    proof {
        assert(views(pages@).take(pages@.len() as int) =~= views(pages@));
    }
    out
}

/// Appending a page to a document appends exactly its record to the wire
/// form.
pub proof fn lemma_encoded_push(pages: Seq<PageView>, p: PageView)
    ensures
        encoded(pages.push(p)) == encoded(pages) + record_of(p),
    decreases pages.len(),
{
    if pages.len() == 0 {
        assert(pages.push(p)[0] == p);
        assert(pages.push(p).drop_first() =~= Seq::<PageView>::empty());
        assert(encoded(pages.push(p)) == record_of(p) + encoded(Seq::<PageView>::empty()));
        assert(record_of(p) + Seq::<u8>::empty() =~= record_of(p));
        assert(Seq::<u8>::empty() + record_of(p) =~= record_of(p));
        assert(encoded(pages) == Seq::<u8>::empty());
    } else {
        assert(pages.push(p).drop_first() =~= pages.drop_first().push(p));
        lemma_encoded_push(pages.drop_first(), p);
        assert(pages.push(p)[0] == pages[0]);
        assert(encoded(pages.push(p)) == record_of(pages[0]) + encoded(pages.drop_first().push(p)));
        assert(encoded(pages.push(p)) == record_of(pages[0]) + (encoded(pages.drop_first())
            + record_of(p)));
        assert(record_of(pages[0]) + (encoded(pages.drop_first()) + record_of(p)) =~= (record_of(
            pages[0],
        ) + encoded(pages.drop_first())) + record_of(p));
        assert(encoded(pages) == record_of(pages[0]) + encoded(pages.drop_first()));
    }
}

/// Every page's sample buffer is small enough to be addressed on this
/// machine. True of every page that actually exists in memory; an
/// arbitrary mathematical page sequence needs it stated.
pub open spec fn addressable_pages(pages: Seq<PageView>) -> bool {
    forall|i: int| 0 <= i < pages.len() ==> (#[trigger] pages[i]).pixels.len() <= usize::MAX
}

/// Writing a 16-bit value as two little-endian bytes and reading them
/// back yields the value.
pub proof fn lemma_le16_round(v: nat)
    requires
        v <= u16::MAX,
    ensures
        le16_value(le16_bytes(v)[0], le16_bytes(v)[1]) == v,
{
    assert(v / 256 < 256) by (nonlinear_arith)
        requires
            v <= 65535,
    ;
    assert(v % 256 < 256) by (nonlinear_arith);
    assert((v / 256) % 256 == v / 256);
    assert(v % 256 + 256 * (v / 256) == v) by (nonlinear_arith);
    assert((v % 256) as u8 as nat == v % 256);
    assert(((v / 256) % 256) as u8 as nat == v / 256);
}

/// Decoding a stream that opens with the complete record of a well-formed
/// page recovers exactly that page, then continues with the rest of the
/// stream.
pub proof fn lemma_decode_step(p: PageView, rest: Seq<u8>)
    requires
        p.wf(),
        p.pixels.len() <= usize::MAX,
    ensures
        decode_spec(record_of(p) + rest) == decode_after(seq![p], decode_spec(rest)),
{
    let data = record_of(p) + rest;
    let need = p.width * p.height * (CHANNELS as nat);
    assert(record_of(p).len() == 4 + need);
    assert(data[0] == le16_bytes(p.width)[0]);
    assert(data[1] == le16_bytes(p.width)[1]);
    assert(data[2] == le16_bytes(p.height)[0]);
    assert(data[3] == le16_bytes(p.height)[1]);
    lemma_le16_round(p.width);
    lemma_le16_round(p.height);
    assert(le16_value(data[0], data[1]) == p.width);
    assert(le16_value(data[2], data[3]) == p.height);
    assert(data.len() - HEADER_LEN >= need);
    assert(data.subrange(HEADER_LEN as int, HEADER_LEN + need) =~= p.pixels);
    assert(data.skip(HEADER_LEN + need) =~= rest);
    let pv = PageView { width: p.width, height: p.height, pixels: data.subrange(HEADER_LEN as int, HEADER_LEN + need) };
    assert(pv == p);
    match decode_spec(rest) {
        Ok(r) => {
            assert(decode_spec(data) == Ok::<Seq<PageView>, ConvertError>(seq![pv] + r));
        },
        Err(_) => {},
    }
}

/// Round trip: decoding the wire form of any well-formed document yields
/// the same pages, in the same order, with identical dimensions and
/// sample bytes.
pub proof fn lemma_round_trip(pages: Seq<PageView>)
    requires
        wf_pages(pages),
        addressable_pages(pages),
    ensures
        decode_spec(encoded(pages)) == Ok::<Seq<PageView>, ConvertError>(pages),
    decreases pages.len(),
{
    if pages.len() == 0 {
        assert(encoded(pages) == Seq::<u8>::empty());
        assert(Seq::<PageView>::empty() =~= pages);
    } else {
        let p = pages[0];
        let rest = encoded(pages.drop_first());
        lemma_round_trip(pages.drop_first());
        lemma_decode_step(p, rest);
        assert(seq![p] + pages.drop_first() =~= pages);
    }
}

/// Reading two little-endian bytes and writing the value back yields the
/// same two bytes.
pub proof fn lemma_le16_bytes_round(lo: u8, hi: u8)
    ensures
        le16_bytes(le16_value(lo, hi)) == seq![lo, hi],
{
    let v = le16_value(lo, hi);
    assert(v % 256 == lo as nat && v / 256 == hi as nat) by (nonlinear_arith)
        requires
            v == lo as nat + 256 * (hi as nat),
            lo < 256,
            hi < 256,
    ;
    assert(le16_bytes(v) =~= seq![lo, hi]);
}

/// Decoding is exact: a stream the decoder accepts is precisely the wire
/// form of the well-formed pages it yields. No accepted stream hides a
/// short page or trailing bytes.
pub proof fn lemma_decode_exact(data: Seq<u8>)
    ensures
        decode_spec(data) matches Ok(pages) ==> wf_pages(pages) && encoded(pages) == data,
    decreases data.len(),
{
    if data.len() == 0 {
        assert(Seq::<u8>::empty() =~= data);
        assert(wf_pages(Seq::<PageView>::empty()));
    } else if decode_spec(data) is Ok {
        let w = le16_value(data[0], data[1]);
        let h = le16_value(data[2], data[3]);
        let need = w * h * (CHANNELS as nat);
        let rest = data.skip(HEADER_LEN + need);
        lemma_decode_exact(rest);
        let p = PageView {
            width: w,
            height: h,
            pixels: data.subrange(HEADER_LEN as int, HEADER_LEN + need),
        };
        lemma_le16_bytes_round(data[0], data[1]);
        lemma_le16_bytes_round(data[2], data[3]);
        assert(p.wf());
        match decode_spec(rest) {
            Ok(restpages) => {
                assert(decode_spec(data) == Ok::<Seq<PageView>, ConvertError>(
                    seq![p] + restpages,
                ));
                assert((seq![p] + restpages)[0] == p);
                assert((seq![p] + restpages).drop_first() =~= restpages);
                assert(record_of(p) =~= data.take(HEADER_LEN + need));
                assert(record_of(p) + encoded(restpages) =~= data);
                assert(forall|i: int|
                    0 <= i < (seq![p] + restpages).len() ==> (#[trigger] (seq![p]
                        + restpages)[i]).wf());
            },
            Err(_) => {},
        }
    }
}

/// Truncation is rejected: dropping the final byte of a non-empty
/// document's wire form leaves its last record's payload short, and
/// decoding fails with the truncated-payload error rather than returning
/// a short page.
pub proof fn lemma_truncation_rejected(pages: Seq<PageView>)
    requires
        wf_pages(pages),
        addressable_pages(pages),
        pages.len() > 0,
    ensures
        decode_spec(encoded(pages).take(encoded(pages).len() - 1)) == Err::<
            Seq<PageView>,
            ConvertError,
        >(ConvertError::TruncatedPayload),
    decreases pages.len(),
{
    let p = pages[0];
    assert(p.wf());
    let need = p.width * p.height * (CHANNELS as nat);
    let rec = record_of(p);
    let rest = encoded(pages.drop_first());
    let data = encoded(pages);
    assert(rec.len() == 4 + need);
    assert(need >= 3) by (nonlinear_arith)
        requires
            p.width >= 1,
            p.height >= 1,
            need == p.width * p.height * 3,
    ;
    if pages.len() == 1 {
        assert(rest == Seq::<u8>::empty());
        assert(data =~= rec);
        let cut = data.take(data.len() - 1);
        assert(cut.len() == 3 + need);
        assert(cut[0] == le16_bytes(p.width)[0]);
        assert(cut[1] == le16_bytes(p.width)[1]);
        assert(cut[2] == le16_bytes(p.height)[0]);
        assert(cut[3] == le16_bytes(p.height)[1]);
        lemma_le16_round(p.width);
        lemma_le16_round(p.height);
        assert(le16_value(cut[0], cut[1]) == p.width);
        assert(le16_value(cut[2], cut[3]) == p.height);
        assert(cut.len() - HEADER_LEN < need);
    } else {
        assert(pages.drop_first().len() > 0);
        let q = pages.drop_first()[0];
        assert(rest == record_of(q) + encoded(pages.drop_first().drop_first()));
        assert(rest.len() >= 4);
        lemma_truncation_rejected(pages.drop_first());
        assert(data.take(data.len() - 1) =~= rec + rest.take(rest.len() - 1));
        lemma_decode_step(p, rest.take(rest.len() - 1));
    }
}

/// Decodes a pixel stream received from the isolated renderer. Scans the
/// records sequentially from the front; accepts exactly the streams that
/// are a whole number of complete records, and reports the first record
/// that cannot be read. Never materializes more than one record's
/// declared payload, and checks that the declared payload fits the
/// remaining input before materializing it.
pub fn parse_pixel_data(data: Vec<u8>) -> (r: Result<Vec<PageData>, ConvertError>)
    ensures
        match r {
            Ok(pages) => {
                &&& decode_spec(data@) == Ok::<Seq<PageView>, ConvertError>(views(pages@))
                &&& wf_pages(views(pages@))
            },
            Err(e) => decode_spec(data@) == Err::<Seq<PageView>, ConvertError>(e),
        },
{
    let n = data.len();
    let mut pages: Vec<PageData> = Vec::new();
    let mut off: usize = 0;
    proof {
        assert(data@.skip(0) =~= data@);
        assert(views(pages@) =~= Seq::<PageView>::empty());
        match decode_spec(data@) {
            Ok(s) => {
                assert(Seq::<PageView>::empty() + s =~= s);
            },
            Err(_) => {},
        }
    }
    while off < n
        invariant
            off <= n,
            n == data@.len(),
            wf_pages(views(pages@)),
            decode_spec(data@) == decode_after(views(pages@), decode_spec(data@.skip(off as int))),
        decreases n - off,
    {
        let ghost tail = data@.skip(off as int);
        let ghost done = views(pages@);
        if n - off < HEADER_LEN {
            assert(decode_spec(tail) == Err::<Seq<PageView>, ConvertError>(
                ConvertError::TruncatedHeader,
            ));
            return Err(ConvertError::TruncatedHeader);
        }
        assert(tail[0] == data@[off as int]);
        assert(tail[1] == data@[off + 1]);
        assert(tail[2] == data@[off + 2]);
        assert(tail[3] == data@[off + 3]);
        let w: u16 = data[off] as u16 + (data[off + 1] as u16) * 256;
        let h: u16 = data[off + 2] as u16 + (data[off + 3] as u16) * 256;
        assert(w as nat == le16_value(tail[0], tail[1]));
        assert(h as nat == le16_value(tail[2], tail[3]));
        if w == 0 || h == 0 {
            return Err(ConvertError::InvalidDimensions);
        }
        proof {
            lemma_payload_bound(w as nat, h as nat);
        }
        let need64: u64 = (w as u64) * (h as u64) * (CHANNELS as u64);
        if need64 > usize::MAX as u64 {
            return Err(ConvertError::OversizedRecord);
        }
        let need: usize = need64 as usize;
        if n - off - HEADER_LEN < need {
            return Err(ConvertError::TruncatedPayload);
        }
        let mut pix: Vec<u8> = Vec::with_capacity(need);
        let mut j: usize = 0;
        while j < need
            invariant
                j <= need,
                off + HEADER_LEN + need <= n,
                n == data@.len(),
                pix@ == data@.subrange(off + HEADER_LEN, off + HEADER_LEN + j),
            decreases need - j,
        {
            pix.push(data[off + HEADER_LEN + j]);
            assert(pix@ =~= data@.subrange(off + HEADER_LEN, off + HEADER_LEN + j + 1));
            j = j + 1;
        }
        let page = PageData { width: w, height: h, pixels: pix };
        proof {
            assert(page@.pixels =~= tail.subrange(
                HEADER_LEN as int,
                HEADER_LEN + (w as nat * h as nat * (CHANNELS as nat)),
            ));
            assert(page@.wf());
        }
        pages.push(page);
        proof {
            let next_tail = data@.skip(off + HEADER_LEN + need);
            assert(tail.skip(HEADER_LEN + (w as nat * h as nat * (CHANNELS as nat))) =~= next_tail);
            assert(views(pages@) =~= done.push(page@));
            assert(decode_spec(tail) == decode_after(seq![page@], decode_spec(next_tail)));
            assert(decode_after(done, decode_spec(tail)) == decode_after(
                done.push(page@),
                decode_spec(next_tail),
            )) by {
                match decode_spec(next_tail) {
                    Ok(rest) => {
                        assert(done + (seq![page@] + rest) =~= done.push(page@) + rest);
                    },
                    Err(_) => {},
                }
            }
        }
        off = off + HEADER_LEN + need;
    }
    proof {
        assert(data@.skip(n as int) =~= Seq::<u8>::empty());
        assert(views(pages@) + Seq::<PageView>::empty() =~= views(pages@));
    }
    Ok(pages)
}

} // verus!
