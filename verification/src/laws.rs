//! What holds of the editor as a whole, across its operations.

pub mod checks;
pub mod drawing;
pub mod editing;
pub mod files;
pub mod keys;
pub mod moves;
pub mod output;
pub mod reading;
pub mod screen;
pub mod session;
pub mod typing;
pub mod views;
