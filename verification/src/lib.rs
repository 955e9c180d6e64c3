pub mod files;
pub mod handler;
pub mod paths;
pub mod pool;
pub mod reading;
pub mod request;
pub mod response;
pub mod route;
pub mod search;
pub mod text;
