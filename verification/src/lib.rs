//! A room of floating texts.

pub mod codec;
pub mod color;
pub mod edit;
pub mod flight;
pub mod keys;
pub mod press;
pub mod rays;
pub mod recall;
pub mod records;
pub mod rows;
pub mod scene;
pub mod space;
pub mod state;
pub mod store;
pub mod text;
pub mod typing;
