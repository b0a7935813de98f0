pub mod binascii;
pub mod byteslike;
pub mod object;
pub mod singletons;
