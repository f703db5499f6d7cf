//! Per-host reconnaissance pipeline: hostnames are resolved, probed once over
//! HTTP, and classified as fronted by a BigIP load balancer or not, by the
//! `server` response header and by membership of the resolved addresses in a
//! table of IPv4 blocks.
pub mod addr;
pub mod headers;
pub mod site;

pub use addr::{bigip_by_ip, subnets_from_lines, IpAddress, Subnet, SubnetParseError};
pub use headers::{bigip_by_header, contains_bigip};
pub use site::{process_all, sites_from_lines, HostOutcome, Site, Stage, Step, Verdict};
