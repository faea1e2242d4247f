pub mod world;
