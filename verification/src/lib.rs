//! Verified core of an agent runtime that talks to language models and chat channels.

pub mod text;
pub mod text_laws;
pub mod json;
pub mod value;
pub mod types;
pub mod openai;
pub mod reading_laws;
pub mod error;
pub mod asking;
pub mod chat;
pub mod stream;
pub mod stream_run;
pub mod gemini;
pub mod gemini_laws;
pub mod gemini_answer;
pub mod ollama;
pub mod history;
pub mod compress;
pub mod history_laws;
pub mod sorting;
pub mod prompt;
pub mod prompt_laws;
pub mod clock;
pub mod response_cache;
pub mod presentation;
pub mod skills;
pub mod paths;
pub mod safety;
pub mod replies;
pub mod mid_loop;
pub mod messages;
pub mod delivery;
pub mod events;
pub mod toolset;
pub mod access;
pub mod call_run;
pub mod gate;
pub mod requests;
pub mod service_laws;
pub mod reply;
pub mod media;
pub mod turn;
pub mod turn_laws;
pub mod work_laws;
pub mod text_map;
pub mod tasks;
pub mod subagent;
pub mod scripts;
pub mod routing;
pub mod config;
pub mod accounts;
pub mod manager;
pub mod sha1;
pub mod sha1_laws;
pub mod seen;
pub mod wecom_crypto;
pub mod wecom_send;
pub mod wecom_webhook;
pub mod wecom_laws;
pub mod answer_laws;
pub mod wecom_conn;
pub mod channel_laws;
pub mod system_laws;
pub mod rule_laws;
pub mod conduct_laws;
pub mod lines;
