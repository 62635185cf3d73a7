//! Lifecycle notifications for the interface: fire-and-forget, best-effort,
//! one stream per item per download attempt.

use vstd::prelude::*;

use crate::app_state::{AppError, IndexedAudioDTO};

verus! {

/// One notification: a download starting, progressing, finishing, or
/// failing with its terminal error.
#[derive(Debug, Clone)]
pub enum Event {
    StartDownload { audio: IndexedAudioDTO },
    FinishedDownload { audio: IndexedAudioDTO },
    ErrorDownload { audio: IndexedAudioDTO, error: AppError },
    Download { audio: IndexedAudioDTO, downloaded: u64, total: u64 },
}

/// A sink for notifications; delivery is best-effort and nothing is
/// promised of it.  The shell's implementation forwards to the interface.
pub trait ForwardEvents {
    fn forward_event(&self, event: Event);
}

} // verus!
