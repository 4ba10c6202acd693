//! What the host advertises over mDNS so companions can find it on the LAN.

use vstd::prelude::*;

verus! {

/// The service record the host registers.
#[derive(Debug, Clone)]
pub struct Advertisement {
    /// Service type, `_hyperlink._udp.local.`.
    pub service_type: String,
    /// Instance name: the device name followed by `-host`.
    pub instance_name: String,
    /// Host name, `hyperlink-host.local.`.
    pub host_name: String,
    /// Full service name: instance name, a dot, then the service type.
    pub fullname: String,
    /// Port the QUIC server listens on.
    pub port: u16,
    /// TXT properties: the device name and the protocol version.
    pub properties: Vec<(String, String)>,
}

/// The advertisement of a host called `device_name` listening on `port`.
pub fn advertisement(device_name: &str, port: u16) -> (r: Advertisement)
    ensures
        r.service_type@ == "_hyperlink._udp.local."@,
        r.instance_name@ == device_name@ + "-host"@,
        r.host_name@ == "hyperlink-host.local."@,
        r.fullname@ == device_name@ + "-host"@ + "."@ + "_hyperlink._udp.local."@,
        r.port == port,
        r.properties@.len() == 2,
        r.properties@[0].0@ == "device_name"@,
        r.properties@[0].1@ == device_name@,
        r.properties@[1].0@ == "version"@,
        r.properties@[1].1@ == "1"@,
{
    let service_type = "_hyperlink._udp.local.".to_owned();
    let mut instance_name = device_name.to_owned();
    instance_name.append("-host");
    let host_name = "hyperlink-host.local.".to_owned();
    let mut fullname = instance_name.clone();
    fullname.append(".");
    fullname.append(service_type.as_str());
    let mut properties: Vec<(String, String)> = Vec::new();
    properties.push(("device_name".to_owned(), device_name.to_owned()));
    properties.push(("version".to_owned(), "1".to_owned()));
    Advertisement { service_type, instance_name, host_name, fullname, port, properties }
}

} // verus!
