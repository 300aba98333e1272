pub mod bus;
