pub mod component;
pub mod entity;
pub mod error;
pub mod laws;
pub mod rows;
pub mod selection;
pub mod storage;
pub mod system;
pub mod world;
pub mod parallel;
pub mod dispatch;
