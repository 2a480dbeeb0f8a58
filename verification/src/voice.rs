//! The voice assistant's configuration and wake-word detection.
use vstd::prelude::*;
use crate::text;
use crate::text::{chars_of, contains_str};

verus! {

/// The speech recognition service used when none is configured.
pub const DEFAULT_WHISPER_URL: &'static str = "http://127.0.0.1:8000/transcribe";

/// The voice assistant's configuration: where speech is sent for
/// transcription.
pub struct VoiceManager {
    whisper_url: String,
}

impl VoiceManager {
    /// The transcription service's address.
    pub closed spec fn url(&self) -> Seq<char> {
        self.whisper_url@
    }

    /// A configuration with the given transcription service, or the default.
    pub fn new(whisper_url: Option<String>) -> (res: Self)
        ensures
            res.url() == match whisper_url {
                Some(u) => u@,
                None => DEFAULT_WHISPER_URL@,
            },
    {
        let whisper_url = match whisper_url {
            Some(u) => u,
            None => DEFAULT_WHISPER_URL.to_string(),
        };
        VoiceManager { whisper_url }
    }

    /// The transcription service's address.
    pub fn whisper_url(&self) -> (res: &str)
        ensures
            res@ == self.url(),
    {
        self.whisper_url.as_str()
    }

    /// Whether a transcribed segment says the wake word `avatar`, in any case.
    pub fn detect_wake_word(&self, text: &str) -> (res: bool)
        ensures
            res == text::contains_seq(text::lowercase(text@), "avatar"@),
    {
        let normalized = chars_of(text::to_lowercase(text).as_str());
        contains_str(&normalized, "avatar")
    }
}

} // verus!
