//! What is kept between requests.
pub mod maps;
pub mod memory;
pub mod rates;
pub mod rows;
