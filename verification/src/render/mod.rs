pub mod drawing;
pub mod mouse;
