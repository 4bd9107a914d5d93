pub mod state;
pub mod logs;
pub mod ownership;
pub mod health;
pub mod manager;
