use vstd::prelude::*;

verus! {

/// The read-only settings the core consumes. Loading and persisting a
/// configuration file happen outside the core; it only reads these fields.
#[derive(Debug)]
pub struct ProxyConfig {
    /// Address the listener binds.
    pub bind: String,
    /// Port the listener binds.
    pub port: u16,
    /// Capacity: logins are rejected once this many players are present.
    pub max_players: u32,
    /// Message-of-the-day text shown in a status response.
    pub motd: String,
}

/// Top-level configuration.
#[derive(Debug)]
pub struct TakumiConfig {
    pub proxy: ProxyConfig,
}

impl Default for TakumiConfig {
    /// The settings a fresh installation starts with.
    fn default() -> (r: TakumiConfig)
        ensures
            r.proxy.bind@ == "0.0.0.0"@,
            r.proxy.port == 25565u16,
            r.proxy.max_players == 100u32,
            r.proxy.motd@ == "A Minecraft Server"@,
    {
        TakumiConfig {
            proxy: ProxyConfig {
                bind: "0.0.0.0".to_owned(),
                port: 25565,
                max_players: 100,
                motd: "A Minecraft Server".to_owned(),
            },
        }
    }
}

} // verus!
