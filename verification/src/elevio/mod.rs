pub mod elev;
pub mod interact;
pub mod sock;
