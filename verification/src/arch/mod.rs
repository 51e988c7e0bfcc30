pub mod x86_64;
pub mod aarch64;
pub mod table_memory;
pub mod user_image;
