//! Verified core of an e-commerce SEO manager: meta badge rules, HTML text helpers,
//! gallery image rules, store payload building and feed synchronisation planning.

pub mod text;
pub mod validation;
pub mod images;
pub mod decisions;
pub mod health;
pub mod ideasoft;
pub mod gemini;
pub mod versions;
pub mod settings;
pub mod focus;
pub mod crm;
pub mod sync;
pub mod blocks;
pub mod generation;
pub mod queue;
pub mod opportunities;
pub mod products;
pub mod metrics;
pub mod assistant;
pub mod quotes;
pub mod usage;
pub mod research;
pub mod json;
pub mod backup;
