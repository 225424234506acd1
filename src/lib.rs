pub mod db;
pub mod detection;
pub mod ident;
pub mod image_processor;
pub mod recognition;
pub mod storage;
pub mod trainer;
pub mod video_processor;
