//! What holds of whole operations, whatever the replies.

pub mod mounting;
pub mod unmounting;
pub mod flushing;
pub mod automounting;
pub mod turns;
pub mod passes;
