//! A consumer-driven contract-testing engine: matching rules and generators
//! addressed by path expressions, pattern-built example bodies, a structural
//! XML body synthesizer, and a registry of running mock servers with
//! pact-file write-out.

pub mod generators;
pub mod http_utils;
pub mod json;
pub mod json_codec;
pub mod legacy;
pub mod matching;
pub mod matching_rules;
pub mod mock_server;
pub mod models;
pub mod pact;
pub mod path_exp;
pub mod patterns;
pub mod provider_states;
pub mod server_manager;
pub mod strings;
pub mod verify_json;
pub mod xml;
