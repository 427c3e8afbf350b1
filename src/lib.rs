pub mod direction;
pub mod fixed;
pub mod input;
pub mod motion;
pub mod player;
pub mod props;
