pub mod ast;
pub mod call;
pub mod capture;
pub mod lower;
pub mod mono;
