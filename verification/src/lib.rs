pub mod btable;
pub mod descriptor;
pub mod enumeration;
pub mod layout;
pub mod pma;
pub mod regfield;
pub mod stat;
pub mod word;
