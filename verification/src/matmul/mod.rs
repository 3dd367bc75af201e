pub mod definition;

pub mod interleaved_eager;
pub mod dispatch;
