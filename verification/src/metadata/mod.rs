//! Offline metadata: DAT files for canonical names and `gamelist.xml`
//! import and export.

pub mod xml;
pub mod dat;
pub mod gamelist;
