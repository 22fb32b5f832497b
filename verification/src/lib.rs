//! Tab, webview and toolbar bookkeeping of a small tabbed browser.
//!
//! The library decides; the embedding application performs the window
//! work that each decision names (showing, hiding, closing webviews,
//! evaluating scripts).

pub mod commands;
pub mod laws;
pub mod order;
pub mod platform;
pub mod pool;
pub mod text;
pub mod toolbar;
pub mod web_url;
