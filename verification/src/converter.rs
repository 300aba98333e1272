pub mod keymousego;
pub mod quickinput;
