pub mod ecs;
pub mod engine;
pub mod game;
pub mod grid;
pub mod sdl;
