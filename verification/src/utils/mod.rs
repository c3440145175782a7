pub mod decimal;
pub mod ringbuf;
