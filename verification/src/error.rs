use vstd::prelude::*;

verus! {

/// Why a conversion failed. One variant per distinguishable failure, so a
/// caller always learns which stage rejected its input and why.
#[derive(Debug, PartialEq, Eq)]
pub enum ConvertError {
    /// A page was declared with a zero width or height.
    InvalidDimensions,
    /// A page was constructed with a pixel buffer whose length does not
    /// match its declared dimensions.
    SizeMismatch,
    /// The pixel stream ended with a partial record header.
    TruncatedHeader,
    /// The pixel stream ended before a record's declared payload was
    /// complete.
    TruncatedPayload,
    /// A stream that ends mid-record in a way the truncation errors do
    /// not already name. The sequential decoder never reports it: a
    /// partial record is always a truncated header or payload.
    TrailingGarbage,
    /// A record header declared a payload larger than this machine could
    /// ever materialize.
    OversizedRecord,
    /// The isolated renderer failed; its diagnostic text is carried
    /// verbatim and never interpreted.
    RasterizationFailed(String),
    /// A document with no pages was handed to the reassembler.
    NoPages,
    /// The output file could not be written.
    WriteFailed,
    /// The OCR stage failed; its diagnostic text is carried verbatim and
    /// never interpreted.
    OcrFailed(String),
}

} // verus!
