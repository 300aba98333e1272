pub mod mouse;
