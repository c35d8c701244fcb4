//! Verified core of a desktop image / SVG / PDF toolbox: the byte formats it
//! writes and reads, the text rules it applies to names and colours, and the
//! bookkeeping of compression jobs.

pub mod app_state;
pub mod commands;
pub mod compress;
pub mod icon_formats;
pub mod icons;
pub mod pdf_tools;
pub mod pdf_writer;
pub mod png;
pub mod raster;
pub mod svg;
pub mod text;
