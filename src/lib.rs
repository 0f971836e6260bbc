pub mod format;
pub mod inject;
pub mod registry;
pub mod relay;
pub mod tail;
