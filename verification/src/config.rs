//! How the application is set up.
use crate::double::Double;
use crate::text;
use vstd::prelude::*;

verus! {

/// The settings of the application.
#[derive(Debug)]
pub struct AppConfig {
    pub server_port: u16,
    pub rust_log: String,
    /// Primary RPC URL, used as a single-provider fallback when no providers are listed.
    pub soroban_rpc_url: String,
    pub jwt_secret: String,
    pub network_passphrase: String,
    /// Redis URL reserved for a distributed cache.
    pub redis_url: String,
    /// JSON-encoded array of RPC provider objects. When empty or absent the engine falls back to
    /// `soroban_rpc_url`.
    pub rpc_providers: String,
    /// Health-check interval in seconds (default 30).
    pub health_check_interval_secs: u64,
}

/// What an [`AppConfig`] stands for.
pub struct ConfigView {
    pub server_port: u16,
    pub rust_log: Seq<char>,
    pub soroban_rpc_url: Seq<char>,
    pub jwt_secret: Seq<char>,
    pub network_passphrase: Seq<char>,
    pub redis_url: Seq<char>,
    pub rpc_providers: Seq<char>,
    pub health_check_interval_secs: u64,
}

impl View for AppConfig {
    type V = ConfigView;

    open spec fn view(&self) -> ConfigView {
        ConfigView {
            server_port: self.server_port,
            rust_log: self.rust_log@,
            soroban_rpc_url: self.soroban_rpc_url@,
            jwt_secret: self.jwt_secret@,
            network_passphrase: self.network_passphrase@,
            redis_url: self.redis_url@,
            rpc_providers: self.rpc_providers@,
            health_check_interval_secs: self.health_check_interval_secs,
        }
    }
}

/// Seconds between two health checks when nothing else is configured.
pub fn default_health_check_interval() -> (secs: u64)
    ensures
        secs == 30,
{
    30
}

/// The safety margin of an optimization when nothing else is asked for: 0.05.
pub fn default_safety_margin() -> (margin: Double)
    ensures
        margin.bits == 0x3FA9_9999_9999_999A,
{
    Double { bits: 0x3FA9_9999_9999_999A }
}

impl Default for AppConfig {
    /// The settings where the environment says nothing.
    fn default() -> (r: AppConfig)
        ensures
            r@ == (ConfigView {
                server_port: 8080,
                rust_log: "info"@,
                soroban_rpc_url: "https://soroban-testnet.stellar.org"@,
                jwt_secret: "dev-secret-change-in-production"@,
                network_passphrase: "Test SDF Network ; September 2015"@,
                redis_url: "redis://127.0.0.1:6379"@,
                rpc_providers: ""@,
                health_check_interval_secs: 30,
            }),
    {
        AppConfig {
            server_port: 8080,
            rust_log: "info".to_owned(),
            soroban_rpc_url: "https://soroban-testnet.stellar.org".to_owned(),
            jwt_secret: "dev-secret-change-in-production".to_owned(),
            network_passphrase: "Test SDF Network ; September 2015".to_owned(),
            redis_url: "redis://127.0.0.1:6379".to_owned(),
            rpc_providers: "".to_owned(),
            health_check_interval_secs: default_health_check_interval(),
        }
    }
}

/// The address that the server listens on.
pub fn bind_address(config: &AppConfig) -> (address: String)
    ensures
        address@ == "0.0.0.0:"@ + text::decimal(config.server_port as nat),
{
    let mut address = "0.0.0.0:".to_owned();
    address.append(text::decimal_text(config.server_port as u64).as_str());
    address
}

// ── Providers ──────────────────────────────────────────────────────────────

/// A node that answers RPC requests.
#[derive(Debug)]
pub struct RpcProvider {
    pub name: String,
    pub url: String,
    pub auth_header: Option<String>,
    pub auth_value: Option<String>,
}

/// Whether this is the provider that stands in where none is listed.
pub open spec fn is_fallback(provider: RpcProvider, config: ConfigView) -> bool {
    &&& provider.name@ == "default"@
    &&& provider.url@ == config.soroban_rpc_url
    &&& provider.auth_header is None
    &&& provider.auth_value is None
}

/// Whether the listed providers are taken: there is a list, it could be read, and it is not empty.
pub open spec fn list_is_taken(config: ConfigView, listed: Option<Seq<RpcProvider>>) -> bool {
    config.rpc_providers.len() > 0 && listed is Some && listed->0.len() > 0
}

/// The providers that requests go to: those that are listed (what reading the list gave, if it could
/// be read), or else the one of the primary URL.
pub fn build_providers(config: &AppConfig, listed: Option<Vec<RpcProvider>>) -> (r: Vec<RpcProvider>)
    ensures
        ({
            let providers = match listed {
                Some(listed) => Some(listed@),
                None => None,
            };
            if list_is_taken(config@, providers) {
                r@ == providers->0
            } else {
                r@.len() == 1 && is_fallback(r@[0], config@)
            }
        }),
        r@.len() > 0,
{
    if config.rpc_providers.as_str().unicode_len() > 0 {
        if let Some(listed) = listed {
            if listed.len() > 0 {
                return listed;
            }
        }
    }
    let mut fallback: Vec<RpcProvider> = Vec::new();
    fallback.push(
        RpcProvider {
            name: "default".to_owned(),
            url: config.soroban_rpc_url.clone(),
            auth_header: None,
            auth_value: None,
        },
    );
    fallback
}

// ── Laws ───────────────────────────────────────────────────────────────────

/// Settings stand for what they hold.
pub proof fn law_settings_stand_for_their_fields(config: AppConfig)
    ensures
        config@.server_port == config.server_port,
        config@.rust_log == config.rust_log@,
        config@.soroban_rpc_url == config.soroban_rpc_url@,
        config@.jwt_secret == config.jwt_secret@,
        config@.network_passphrase == config.network_passphrase@,
        config@.redis_url == config.redis_url@,
        config@.rpc_providers == config.rpc_providers@,
        config@.health_check_interval_secs == config.health_check_interval_secs,
{
}

/// The providers that are listed are taken, however many, unless the setting is empty, the list could
/// not be read, or it names none. The one that then stands in is called `default`, and has the primary
/// URL and no authentication.
pub proof fn law_listed_providers_come_first(
    config: ConfigView,
    listed: Seq<RpcProvider>,
    provider: RpcProvider,
)
    ensures
        list_is_taken(config, Some(listed)) <==> config.rpc_providers != Seq::<char>::empty()
            && listed != Seq::<RpcProvider>::empty(),
        !list_is_taken(config, None),
        is_fallback(provider, config) <==> provider.name@ == "default"@ && provider.url@
            == config.soroban_rpc_url && provider.auth_header is None && provider.auth_value is None,
{
    if config.rpc_providers.len() == 0 {
        assert(config.rpc_providers =~= Seq::<char>::empty());
    }
    if listed.len() == 0 {
        assert(listed =~= Seq::<RpcProvider>::empty());
    }
}

} // verus!
