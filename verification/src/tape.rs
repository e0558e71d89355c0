pub mod changer;
pub mod device;
pub mod media_location;
