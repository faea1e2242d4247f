pub mod pso;
