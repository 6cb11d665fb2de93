//! Verified core logic of the Temper OS agent apps: tool-span and session-tree
//! trajectory assembly, the Temper transport guards, cron scheduling helpers
//! and the text utilities they share.

pub mod text;
pub mod json;
pub mod json_text;
pub mod ots;
pub mod chain;
pub mod session;
pub mod trajectory;
pub mod message;
pub mod signals;
pub mod assemble;
pub mod transport;
pub mod dates;
pub mod routes;
pub mod cron;
pub mod skills;
pub mod compaction;
pub mod tools;
pub mod history;
pub mod prepare;
pub mod genai;
pub mod openrouter;
pub mod reply;
pub mod mock;
pub mod responses;
pub mod providers;
pub mod prompt;
pub mod links;
pub mod knowledge;
pub mod wiki;
pub mod approval;
pub mod capability;
pub mod callback;
pub mod reuse;
pub mod skills_block;
pub mod emission;
pub mod time_order;
