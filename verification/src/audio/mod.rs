pub mod block;
pub mod info;
pub mod output;
pub mod params;
