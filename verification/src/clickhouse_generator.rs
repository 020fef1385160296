//! Settings for ClickHouse server configuration files.

use vstd::prelude::*;

use crate::deployment::Generation;
use crate::net::{Ipv6Addr, SocketAddrV6};

verus! {

/// A host in a ClickHouse cluster.
#[derive(Copy, Clone, Debug, PartialEq, Eq, Structural)]
pub enum ClickhouseHost {
    Ipv6(Ipv6Addr),
}

/// Settings of a ClickHouse server.
#[derive(Debug)]
pub struct ServerSettings {
    pub config_dir: String,
    pub id: u64,
    pub listen_addr: Ipv6Addr,
    pub datastore_path: String,
    pub keepers: Vec<ClickhouseHost>,
    pub remote_servers: Vec<ClickhouseHost>,
}

/// The settings of a ClickHouse server, under a generation.
#[derive(Debug)]
pub struct ServerConfigurableSettings {
    pub generation: Generation,
    pub settings: ServerSettings,
}

/// What is sent to a ClickHouse admin server.
#[derive(Debug)]
pub struct ServerConfigRequest {
    pub admin_url: String,
    pub settings: ServerConfigurableSettings,
}

/// The message for a configuration file that could not be generated.
pub const GENERATE_FAILED: &'static str =
    "failed to generate ClickHouse configuration file for 'ZONE_ID' ";

/// What to send to the ClickHouse admin server at an address, so that it
/// generates a configuration file for a server with a given datastore.
pub fn generate_clickhose_server_config(datastore: String, admin_addr: SocketAddrV6) -> (r:
    ServerConfigRequest)
    ensures
        r.admin_url@ == "http://"@ + admin_addr.text(),
        r.settings.generation == 1,
        r.settings.settings.config_dir@ == Seq::<char>::empty(),
        r.settings.settings.id == 1,
        r.settings.settings.listen_addr == admin_addr.ip,
        r.settings.settings.datastore_path@ == datastore@,
        r.settings.settings.keepers@ == seq![ClickhouseHost::Ipv6(1)],
        r.settings.settings.remote_servers@ == seq![ClickhouseHost::Ipv6(1)],
{
    let admin_url = "http://".to_owned().concat(admin_addr.to_text().as_str());
    let keepers = vec![ClickhouseHost::Ipv6(1)];
    let remote_servers = vec![ClickhouseHost::Ipv6(1)];
    assert(keepers@ =~= seq![ClickhouseHost::Ipv6(1)]);
    assert(remote_servers@ =~= seq![ClickhouseHost::Ipv6(1)]);
    ServerConfigRequest {
        admin_url,
        settings: ServerConfigurableSettings {
            generation: 1,
            settings: ServerSettings {
                config_dir: String::new(),
                id: 1,
                listen_addr: admin_addr.ip,
                datastore_path: datastore,
                keepers,
                remote_servers,
            },
        },
    }
}

} // verus!
