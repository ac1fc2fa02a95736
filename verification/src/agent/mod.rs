pub mod extensions;
pub mod output;
