pub mod emitter;
pub mod tauri;
