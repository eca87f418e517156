pub mod abi;
pub mod cli;
pub mod compiler;
pub mod dotenv;
pub mod errors;
pub mod ffi;
pub mod fs;
pub mod os;
pub mod path;
pub mod process;
pub mod text;
