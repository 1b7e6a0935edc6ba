pub mod pipe;
