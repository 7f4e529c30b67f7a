//! Seams towards the filesystem: traits a caller implements with real
//! I/O, handing the library plain entry values back.

pub mod file_system_reader;
