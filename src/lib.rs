//! Discovery of live hosts on a local IPv4 subnet through address-resolution
//! broadcasts: frame layout, the address sweep, reply filtering and collection.

pub mod addr;
pub mod frame;
pub mod subnet;
pub mod scan;
