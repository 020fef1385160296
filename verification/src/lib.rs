//! Verified control-plane logic of a rack: blueprints and their differences,
//! the simulated system, instance start, authorization setup, address
//! allocation, and the decisions of the services around them.

pub mod address_laws;
pub mod authz;
pub mod authz_laws;
pub mod blueprint_diff;
pub mod clickhouse_generator;
pub mod deployment;
pub mod deployment_laws;
pub mod description;
pub mod diff_laws;
pub mod dispatch;
pub mod http_server;
pub mod image_laws;
pub mod instance_start;
pub mod internal_dns;
pub mod inventory;
pub mod metrics_producer_gc;
pub mod net;
pub mod ordered;
pub mod producer;
pub mod region_snapshot;
pub mod registry;
pub mod sectioned_table;
pub mod service_laws;
pub mod sort;
pub mod sysconf;
pub mod system;
pub mod system_laws;
pub mod table_display;
pub mod table_laws;
pub mod text;
pub mod text_laws;
pub mod time;
pub mod zone_images;
