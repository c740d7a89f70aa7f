//! Turns a LaTeX math expression into a colored SVG document: the document
//! template, the SVG colorizer, command-line parsing and the ordered steps of
//! a conversion run.
pub mod cli;
pub mod colorize;
pub mod pipeline;
pub mod template;
