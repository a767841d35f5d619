//! Trip planning core: outline parsing, detail enrichment decisions,
//! cover selection and ownership checks over stored records.
pub mod chat;
pub mod cover;
pub mod enrich;
pub mod error;
pub mod ids;
pub mod job;
pub mod messages;
pub mod model;
pub mod outline;
pub mod prompts;
pub mod reading;
pub mod store;
pub mod text;
