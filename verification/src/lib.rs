//! Local LLM integration for the Zterm terminal: providers, settings, model
//! identifiers, chat message construction, the agent tool loop and the
//! parsing of provider responses, with their contracts proved by Verus.

pub mod provider;
pub mod text;
pub mod llm_id;
pub mod model_id;
pub mod settings;
pub mod messages;
pub mod tools;
pub mod tool_calls;
pub mod sse;
pub mod client;
pub mod agent_loop;
pub mod response;
pub mod footer;
pub mod links;
pub mod dev_images;
pub mod loading;
