pub mod changer;
pub mod device;
pub mod drive;
pub mod media_location;
pub mod media_pool;
