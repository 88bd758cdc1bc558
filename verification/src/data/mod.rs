pub mod candles;
pub mod orderbook;
pub mod ring_buffer;
pub mod storage;
pub mod order_flow;
