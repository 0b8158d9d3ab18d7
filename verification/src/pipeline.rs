use vstd::prelude::*;

use crate::codec::{decode_spec, parse_pixel_data, views};
use crate::error::ConvertError;
use crate::page::PageView;
use crate::pdf::{assemble, pdf_file};

verus! {

/// Where an assembled document is written: straight to the requested
/// output path, or to the intermediate file that the OCR stage reads.
pub enum WriteTarget {
    Output,
    Intermediate,
}

/// What the surrounding program must do next. The program performs the
/// action and reports what happened as the next event; it takes no file
/// action the orchestrator did not ask for.
pub enum Action {
    /// Run the isolated renderer on the input document and report its
    /// pixel stream, or its failure, as the next event.
    Rasterize,
    /// Put the bytes at the target path atomically: after this action the
    /// target holds all of the bytes or nothing at all, never a partial
    /// file. Report the outcome as the next event.
    Write { target: WriteTarget, bytes: Vec<u8> },
    /// Run the OCR stage from the intermediate file to the output path.
    /// If it fails, nothing may be left at the output path. Report the
    /// outcome as the next event.
    Ocr,
    /// Remove the intermediate file, then report back.
    RemoveIntermediate,
    /// The conversion is over with this result. No further action will be
    /// asked for, and none may be taken.
    Finish { result: Result<(), ConvertError> },
}

/// What the surrounding program reports after performing an action.
pub enum Event {
    /// The renderer exited cleanly with this pixel stream.
    Pixels { bytes: Vec<u8> },
    /// The renderer failed; the detail is opaque diagnostic text.
    RasterizeFailed { detail: String },
    /// The write reached the target path completely.
    Wrote,
    /// The write failed and left nothing at the target path.
    WriteFailed,
    /// The OCR stage produced the output file.
    OcrDone,
    /// The OCR stage failed and left nothing at the output path.
    OcrFailed { detail: String },
    /// The intermediate file is gone.
    Removed,
}

/// How far the conversion has come.
pub enum Phase {
    /// Waiting for the renderer's pixel stream.
    Rasterizing,
    /// Waiting for the assembled document to reach its target path.
    Writing { ocr: bool },
    /// Waiting for the OCR stage.
    OcrRunning,
    /// Waiting for the intermediate file to be removed; the conversion's
    /// result is already decided.
    Cleaning { result: Result<(), ConvertError> },
    /// The conversion is over.
    Finished,
}

/// The decision logic of one document conversion. It sequences
/// rasterization, decoding, reassembly, the optional OCR pass and the
/// cleanup of the intermediate file, and decides every action from the
/// current phase and the reported event alone. All file work stays with
/// the surrounding program; everything sent towards the output path
/// comes out of the verified decoder and reassembler.
pub struct Pipeline {
    /// Whether an OCR text layer was requested.
    pub ocr: bool,
    /// The current phase.
    pub phase: Phase,
    /// The pixel stream the renderer reported, kept for specification.
    pub stream: Ghost<Seq<u8>>,
}

impl Pipeline {
    /// Which events may answer the current phase. The driving program
    /// reports the outcome of the action it was last asked to perform,
    /// so the event's kind always matches the phase.
    pub open spec fn accepts(self, event: Event) -> bool {
        match self.phase {
            Phase::Rasterizing => event is Pixels || event is RasterizeFailed,
            Phase::Writing { .. } => event is Wrote || event is WriteFailed,
            Phase::OcrRunning => event is OcrDone || event is OcrFailed,
            Phase::Cleaning { .. } => event is Removed,
            Phase::Finished => false,
        }
    }

    /// Starts a conversion: the first thing to do is always to run the
    /// isolated renderer.
    pub fn new(ocr: bool) -> (r: (Pipeline, Action))
        ensures
            r.0.phase is Rasterizing,
            r.0.ocr == ocr,
            r.1 is Rasterize,
    {
        (
            Pipeline { ocr, phase: Phase::Rasterizing, stream: Ghost(Seq::empty()) },
            Action::Rasterize,
        )
    }

    /// Advances the conversion by one reported event and decides the next
    /// action. Every stage failure finishes the conversion with that
    /// failure; nothing is retried and no partial result is delivered.
    /// The only bytes ever sent towards the output path are the
    /// reassembled document of exactly the pages decoded from the
    /// renderer's stream, and after an OCR failure the conversion
    /// finishes with that failure, never passing the intermediate file
    /// off as the output.
    pub fn step(&mut self, event: Event) -> (action: Action)
        requires
            old(self).accepts(event),
        ensures
            final(self).ocr == old(self).ocr,
            !(event is Pixels) ==> final(self).stream == old(self).stream,
            match (old(self).phase, event) {
                (Phase::Rasterizing, Event::Pixels { bytes }) => {
                    &&& final(self).stream@ == bytes@
                    &&& match decode_spec(bytes@) {
                        Ok::<Seq<PageView>, ConvertError>(pages) => if pages.len() == 0 {
                            &&& final(self).phase is Finished
                            &&& action == (Action::Finish { result: Err(ConvertError::NoPages) })
                        } else {
                            &&& final(self).phase == (Phase::Writing { ocr: old(self).ocr })
                            &&& (action matches Action::Write { target, bytes: pdf } && pdf@
                                == pdf_file(pages) && ((target is Intermediate) <==> old(
                                self,
                            ).ocr))
                        },
                        Err(e) => {
                            &&& final(self).phase is Finished
                            &&& action == (Action::Finish { result: Err(e) })
                        },
                    }
                },
                (Phase::Rasterizing, Event::RasterizeFailed { detail }) => {
                    &&& final(self).phase is Finished
                    &&& action == (Action::Finish {
                        result: Err(ConvertError::RasterizationFailed(detail)),
                    })
                },
                (Phase::Writing { ocr }, Event::Wrote) => if ocr {
                    &&& final(self).phase is OcrRunning
                    &&& action is Ocr
                } else {
                    &&& final(self).phase is Finished
                    &&& action == (Action::Finish { result: Ok(()) })
                },
                (Phase::Writing { .. }, Event::WriteFailed) => {
                    &&& final(self).phase is Finished
                    &&& action == (Action::Finish { result: Err(ConvertError::WriteFailed) })
                },
                (Phase::OcrRunning, Event::OcrDone) => {
                    &&& final(self).phase == (Phase::Cleaning { result: Ok(()) })
                    &&& action is RemoveIntermediate
                },
                (Phase::OcrRunning, Event::OcrFailed { detail }) => {
                    &&& final(self).phase == (Phase::Cleaning {
                        result: Err(ConvertError::OcrFailed(detail)),
                    })
                    &&& action is RemoveIntermediate
                },
                (Phase::Cleaning { result }, Event::Removed) => {
                    &&& final(self).phase is Finished
                    &&& action == (Action::Finish { result })
                },
                _ => false,
            },
    {
        let mut ph = Phase::Finished;
        core::mem::swap(&mut ph, &mut self.phase);
        match (ph, event) {
            (Phase::Rasterizing, Event::Pixels { bytes }) => {
                let ghost gb = bytes@;
                self.stream = Ghost(gb);
                match parse_pixel_data(bytes) {
                    Ok(pages) => match assemble(&pages) {
                        Ok(pdf) => {
                            let ocr = self.ocr;
                            self.phase = Phase::Writing { ocr };
                            proof {
                                assert(views(pages@).len() > 0);
                            }
                            Action::Write {
                                target: if ocr {
                                    WriteTarget::Intermediate
                                } else {
                                    WriteTarget::Output
                                },
                                bytes: pdf,
                            }
                        },
                        Err(e) => Action::Finish { result: Err(e) },
                    },
                    Err(e) => Action::Finish { result: Err(e) },
                }
            },
            (Phase::Rasterizing, Event::RasterizeFailed { detail }) => Action::Finish {
                result: Err(ConvertError::RasterizationFailed(detail)),
            },
            (Phase::Writing { ocr: true }, Event::Wrote) => {
                self.phase = Phase::OcrRunning;
                Action::Ocr
            },
            (Phase::Writing { ocr: false }, Event::Wrote) => Action::Finish { result: Ok(()) },
            (Phase::Writing { .. }, Event::WriteFailed) => Action::Finish {
                result: Err(ConvertError::WriteFailed),
            },
            (Phase::OcrRunning, Event::OcrDone) => {
                self.phase = Phase::Cleaning { result: Ok(()) };
                Action::RemoveIntermediate
            },
            (Phase::OcrRunning, Event::OcrFailed { detail }) => {
                self.phase = Phase::Cleaning { result: Err(ConvertError::OcrFailed(detail)) };
                Action::RemoveIntermediate
            },
            (Phase::Cleaning { result }, Event::Removed) => Action::Finish { result },
            _ => {
                proof {
                    assert(false);
                }
                Action::Finish { result: Ok(()) }
            },
        }
    }
}

} // verus!
