pub mod output;
