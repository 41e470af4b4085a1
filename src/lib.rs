pub mod fps_counter;
pub mod text;
pub mod obj_parser;
