//! Request-shaping logic of the Kiro gateway: text-field and whole-payload
//! truncation, remote-compaction helpers, proxy settings and profile ARNs.

pub mod available_profiles;
pub mod compaction_render;
pub mod http_client;
pub mod json_text;
pub mod kiro_request;
pub mod payload_truncate;
pub mod responses_compaction;
pub mod settings;
pub mod text_truncate;
pub mod utf8_text;
