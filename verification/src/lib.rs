pub mod assembler;
pub mod cpu;
pub mod display;
pub mod editor;
pub mod encoding;
pub mod text;
