pub mod producer;
