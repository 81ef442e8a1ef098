pub mod bitcoin;
pub mod ethereum;
