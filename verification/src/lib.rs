//! Call-graph analysis of Go and Rust sources, and rendering of the graph.

pub mod text;
pub mod language;
pub mod model;
pub mod order;
pub mod render;
pub mod viewer;
pub mod syntax;
pub mod analysis_options;
pub mod symbols;
pub mod analyzer;
pub mod sources;
pub mod quick;

pub use analysis_options::AnalysisOptions;
pub use language::Language;
pub use model::{Analysis, Call, CallKind, Function};
pub use render::{render_dot, render_html};
