//! Capture and dispatch pipeline of a voice assistant: the detection state
//! machine that segments speech into recordings, the conversation worker that
//! sequences transcription, language-model exchange and speech playback, and
//! the text and byte formats both rely on.

pub mod audio_processing;
pub mod capture;
pub mod dispatch;
pub mod http_client;
pub mod llm_intf;
pub mod session;
pub mod session_laws;
pub mod text;
pub mod transcription;
pub mod tts;
pub mod tts_laws;
pub mod wifi;
