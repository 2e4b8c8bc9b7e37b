pub mod load;
pub mod manager;
pub mod number;
pub mod route;
pub mod serve;
pub mod task;
pub mod transfer;
pub mod wire;
