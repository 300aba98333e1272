pub mod data_aggregator;
pub mod http;
pub mod image_match;
pub mod keyboard;
pub mod mouse_click;
pub mod mouse_move;
pub mod ocr;
pub mod screen_capture;
pub mod params;
pub mod start;
pub mod time_wait;
pub mod wasm;
