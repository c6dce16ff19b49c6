//! A shader preview tool's logic: directory change detection, hot reload of the shaders
//! and of the render pipeline, decoding of compiled SPIR-V artifacts, RGBA8888 to RGB565
//! conversion for SPI panels, the status feed's line framing and parsing, and the
//! start-up options.
pub mod file_watcher;
pub mod pixel_format;
pub mod run_options;
pub mod shader_pipeline;
pub mod spirv;
pub mod st7789_driver;
pub mod status_feed;
pub mod text;
