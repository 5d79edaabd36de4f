//! The transcription collaborator's response record. The transcription
//! client itself is an HTTP collaborator of the host, outside the sync
//! engine; only the shape of its successful answer is kept here.

use vstd::prelude::*;

verus! {

/// A successful transcription answer: the recognised text.
#[derive(Debug)]
pub struct TranscriptionResponse {
    pub text: String,
}

} // verus!
