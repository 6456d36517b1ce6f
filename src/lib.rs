//! Discovery of live hosts on a local IPv4 subnet: address enumeration,
//! neighbour-table correlation and vendor lookup by hardware-address prefix.

pub mod network;
pub mod scanner;
pub mod text;
pub mod vendor;

pub use network::{create_network, interface_order, ipv4_to_prefix, NetworkError, NetworkRange};
pub use scanner::{scan_network, Host, HostIterator, NeighborEntry, NeighborTable, ScanPlan};
pub use text::ipv4_to_string;
pub use vendor::{get_vendor_oui, OuiError, RegistryError, Vendor, VendorRecord};
