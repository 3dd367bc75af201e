pub mod attention;
pub mod fragment;
pub mod setup;
