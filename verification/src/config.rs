//! Configuration data and its validation rules.
//!
//! Reading the TOML file itself is the surrounding application's job; it
//! hands the parsed plain values to this module, which owns the shape of
//! the configuration and decides what is acceptable.

use vstd::prelude::*;
use crate::addr::IpAddress;

verus! {

/// Supported DNS record types.
#[derive(Clone, Copy, Debug, PartialEq, Eq, Structural)]
pub enum RecordType {
    A,
    AAAA,
}

/// One DNS record to keep reconciled: the minimal reconciliation unit.
#[derive(Clone, Debug)]
pub struct RecordConfig {
    /// The zone name, e.g. `example.com`.
    pub zone: String,
    /// The full record name, e.g. `home.example.com`.
    pub name: String,
    /// Record type: `A` for IPv4, `AAAA` for IPv6.
    pub record_type: RecordType,
    /// Whether the record is proxied by the provider.
    pub proxied: bool,
    /// TTL in seconds (1 = automatic).
    pub ttl: u32,
}

/// Provider authentication.
#[derive(Clone, Debug)]
pub struct CloudflareConfig {
    /// API token with zone read and DNS edit permissions.
    pub api_token: String,
}

/// Optional settings for IP discovery.
#[derive(Clone, Debug)]
pub struct Settings {
    /// URL that answers with the caller's public IPv4 address.
    pub ipv4_url: String,
    /// URL that answers with the caller's public IPv6 address.
    pub ipv6_url: String,
    /// A forced IP that overrides discovery when present.
    pub force_ip: Option<IpAddress>,
}

/// Service-mode settings.
#[derive(Clone, Debug)]
pub struct ServiceConfig {
    /// Cron expression for scheduled update cycles.
    pub cron: String,
    /// Whether to run one update cycle immediately at service start.
    pub run_on_start: bool,
}

/// The whole configuration.
#[derive(Clone, Debug)]
pub struct Config {
    pub cloudflare: CloudflareConfig,
    pub records: Vec<RecordConfig>,
    pub settings: Settings,
    pub service: ServiceConfig,
}

/// Why a configuration was rejected. The index names the offending record.
#[derive(Clone, Copy, Debug, PartialEq, Eq, Structural)]
pub enum ConfigError {
    EmptyApiToken,
    NoRecords,
    EmptyZone { index: usize },
    EmptyName { index: usize },
}

/// Default cron schedule: every five minutes.
pub fn default_cron() -> (s: String)
    ensures
        s@ == "*/5 * * * *"@,
{
    String::from_str("*/5 * * * *")
}

/// By default one cycle runs immediately at service start.
pub fn default_run_on_start() -> (b: bool)
    ensures
        b,
{
    true
}

/// The default record type is IPv4.
pub fn default_record_type() -> (t: RecordType)
    ensures
        t == RecordType::A,
{
    RecordType::A
}

/// The default TTL, 1, asks the provider for an automatic TTL.
pub fn default_ttl() -> (t: u32)
    ensures
        t == 1,
{
    1
}

/// Default discovery URL for public IPv4 addresses.
pub fn default_ipv4_url() -> (s: String)
    ensures
        s@ == "https://api.ipify.org"@,
{
    String::from_str("https://api.ipify.org")
}

/// Default discovery URL for public IPv6 addresses.
pub fn default_ipv6_url() -> (s: String)
    ensures
        s@ == "https://api6.ipify.org"@,
{
    String::from_str("https://api6.ipify.org")
}

impl Default for ServiceConfig {
    /// The default schedule with an immediate first cycle.
    fn default() -> (d: Self)
        ensures
            d.cron@ == "*/5 * * * *"@,
            d.run_on_start,
    {
        ServiceConfig { cron: default_cron(), run_on_start: default_run_on_start() }
    }
}

impl Default for Settings {
    /// The default discovery URLs and no forced IP.
    fn default() -> (d: Self)
        ensures
            d.ipv4_url@ == "https://api.ipify.org"@,
            d.ipv6_url@ == "https://api6.ipify.org"@,
            d.force_ip is None,
    {
        Settings { ipv4_url: default_ipv4_url(), ipv6_url: default_ipv6_url(), force_ip: None }
    }
}

/// The canonical name of each record type.
pub open spec fn record_type_text(t: RecordType) -> Seq<char> {
    match t {
        RecordType::A => "A"@,
        RecordType::AAAA => "AAAA"@,
    }
}

/// A character folded to upper case, for the ASCII letters.
pub open spec fn upper_char(c: char) -> char {
    if 97 <= c as u32 <= 122 {
        ((c as u32 - 32) as char)
    } else {
        c
    }
}

/// A text folded to upper case, character by character.
pub open spec fn upper_text(s: Seq<char>) -> Seq<char> {
    Seq::new(s.len(), |i: int| upper_char(s[i]))
}

impl RecordType {
    /// The canonical name of the record type.
    pub fn label(&self) -> (s: String)
        ensures
            s@ == record_type_text(*self),
    {
        match self {
            RecordType::A => String::from_str("A"),
            RecordType::AAAA => String::from_str("AAAA"),
        }
    }

    /// Reads a record type name, case-insensitively: anything whose
    /// upper-case form is `A` or `AAAA`; everything else is rejected
    /// with a message naming the input.
    pub fn parse(s: &str) -> (r: Result<RecordType, String>)
        ensures
            r is Ok <==> (upper_text(s@) == "A"@ || upper_text(s@) == "AAAA"@),
            r matches Ok(t) ==> if upper_text(s@) == "A"@ {
                t == RecordType::A
            } else {
                t == RecordType::AAAA
            },
            r matches Err(m) ==> m@ == "Invalid record type: "@ + s@ + ". Use 'A' or 'AAAA'"@,
    {
        proof {
            reveal_strlit("A");
            reveal_strlit("AAAA");
            vstd::utf8::char_u32_cast('A', 65);
        }
        let n = s.unicode_len();
        let mut all_a = true;
        for i in 0..n
            invariant
                n == s@.len(),
                all_a <==> (forall|q: int| 0 <= q < i ==> upper_char(#[trigger] s@[q]) == 'A'),
        {
            let c = s.get_char(i);
            if c != 'a' && c != 'A' {
                all_a = false;
            }
            proof {
                vstd::utf8::char_u32_cast('A', 65);
            }
        }
        if all_a && n == 1 {
            proof {
                assert(upper_text(s@) =~= "A"@);
            }
            Ok(RecordType::A)
        } else if all_a && n == 4 {
            proof {
                assert(upper_text(s@) =~= "AAAA"@);
            }
            Ok(RecordType::AAAA)
        } else {
            proof {
                if upper_text(s@) == "A"@ {
                    assert(s@.len() == 1);
                    assert(upper_text(s@)[0] == 'A');
                    assert(upper_char(s@[0]) == 'A');
                    assert(forall|q: int| 0 <= q < n ==> upper_char(#[trigger] s@[q]) == 'A');
                    assert(false);
                }
                if upper_text(s@) == "AAAA"@ {
                    reveal_strlit("AAAA");
                    assert(upper_text(s@).len() == s@.len());
                    assert(("AAAA"@).len() == 4);
                    assert(s@.len() == 4);
                    assert(upper_text(s@)[0] == 'A');
                    assert(upper_text(s@)[1] == 'A');
                    assert(upper_text(s@)[2] == 'A');
                    assert(upper_text(s@)[3] == 'A');
                    assert forall|q: int| 0 <= q < n implies upper_char(#[trigger] s@[q]) == 'A'
                        by {
                        assert(upper_char(s@[q]) == upper_text(s@)[q]);
                    }
                    assert(false);
                }
            }
            let mut out: Vec<char> = Vec::new();
            crate::text::push_str_chars(&mut out, "Invalid record type: ");
            crate::text::push_str_chars(&mut out, s);
            crate::text::push_str_chars(&mut out, ". Use 'A' or 'AAAA'");
            proof {
                assert(out@ =~= "Invalid record type: "@ + s@ + ". Use 'A' or 'AAAA'"@);
            }
            Err(crate::text::string_from_chars(&out))
        }
    }
}

/// A record is well formed when its zone and name are nonempty.
pub open spec fn record_valid(r: RecordConfig) -> bool {
    r.zone@.len() > 0 && r.name@.len() > 0
}

/// A configuration is acceptable when the API token is nonempty, at least
/// one record is configured, and every record is well formed.
pub open spec fn config_valid(c: Config) -> bool {
    &&& c.cloudflare.api_token@.len() > 0
    &&& c.records@.len() > 0
    &&& forall|i: int| 0 <= i < c.records@.len() ==> record_valid(#[trigger] c.records@[i])
}

/// What each validation error asserts of the configuration: the checks run
/// in order (token, record count, then each record's zone before its name),
/// and an indexed error names the first offending record.
pub open spec fn config_error_holds(c: Config, e: ConfigError) -> bool {
    match e {
        ConfigError::EmptyApiToken => c.cloudflare.api_token@.len() == 0,
        ConfigError::NoRecords => c.cloudflare.api_token@.len() > 0 && c.records@.len() == 0,
        ConfigError::EmptyZone { index } => {
            &&& c.cloudflare.api_token@.len() > 0
            &&& 0 <= index < c.records@.len()
            &&& c.records@[index as int].zone@.len() == 0
            &&& forall|j: int| 0 <= j < index ==> record_valid(#[trigger] c.records@[j])
        },
        ConfigError::EmptyName { index } => {
            &&& c.cloudflare.api_token@.len() > 0
            &&& 0 <= index < c.records@.len()
            &&& c.records@[index as int].zone@.len() > 0
            &&& c.records@[index as int].name@.len() == 0
            &&& forall|j: int| 0 <= j < index ==> record_valid(#[trigger] c.records@[j])
        },
    }
}

impl Config {
    /// Checks the configuration, reporting the first violation in order.
    pub fn validate(&self) -> (r: Result<(), ConfigError>)
        ensures
            r is Ok <==> config_valid(*self),
            r matches Err(e) ==> config_error_holds(*self, e),
    {
        if self.cloudflare.api_token.as_str().unicode_len() == 0 {
            return Err(ConfigError::EmptyApiToken);
        }
        if self.records.len() == 0 {
            return Err(ConfigError::NoRecords);
        }
        let n = self.records.len();
        for i in 0..n
            invariant
                n == self.records@.len(),
                self.cloudflare.api_token@.len() > 0,
                n > 0,
                forall|j: int| 0 <= j < i ==> record_valid(#[trigger] self.records@[j]),
        {
            let rec = &self.records[i];
            if rec.zone.as_str().unicode_len() == 0 {
                return Err(ConfigError::EmptyZone { index: i });
            }
            if rec.name.as_str().unicode_len() == 0 {
                return Err(ConfigError::EmptyName { index: i });
            }
        }
        Ok(())
    }

    /// Builds a one-record configuration from plain arguments, with the
    /// default discovery URLs and schedule, and validates it.
    pub fn from_args(
        api_token: String,
        zone: String,
        record_name: String,
        record_type: RecordType,
        proxied: bool,
        ttl: u32,
        force_ip: Option<IpAddress>,
    ) -> (r: Result<Config, ConfigError>)
        ensures
            r is Ok <==> api_token@.len() > 0 && zone@.len() > 0 && record_name@.len() > 0,
            r matches Ok(c) ==> {
                &&& c.cloudflare.api_token@ == api_token@
                &&& c.records@.len() == 1
                &&& c.records@[0].zone@ == zone@
                &&& c.records@[0].name@ == record_name@
                &&& c.records@[0].record_type == record_type
                &&& c.records@[0].proxied == proxied
                &&& c.records@[0].ttl == ttl
                &&& c.settings.force_ip == force_ip
                &&& c.settings.ipv4_url@ == "https://api.ipify.org"@
                &&& c.settings.ipv6_url@ == "https://api6.ipify.org"@
                &&& c.service.cron@ == "*/5 * * * *"@
                &&& c.service.run_on_start
                &&& config_valid(c)
            },
    {
        let mut records: Vec<RecordConfig> = Vec::new();
        records.push(RecordConfig { zone, name: record_name, record_type, proxied, ttl });
        let config = Config {
            cloudflare: CloudflareConfig { api_token },
            records,
            settings: Settings {
                ipv4_url: default_ipv4_url(),
                ipv6_url: default_ipv6_url(),
                force_ip,
            },
            service: ServiceConfig::default(),
        };
        match config.validate() {
            Ok(()) => Ok(config),
            Err(e) => Err(e),
        }
    }
}

impl ConfigError {
    /// The human-readable description of the error.
    pub fn message(&self) -> (s: String)
        ensures
            s@ == config_error_text(*self),
    {
        match self {
            ConfigError::EmptyApiToken => String::from_str("Cloudflare API token cannot be empty"),
            ConfigError::NoRecords => String::from_str(
                "At least one DNS record must be configured",
            ),
            ConfigError::EmptyZone { .. } => String::from_str("Record zone cannot be empty"),
            ConfigError::EmptyName { .. } => String::from_str("Record name cannot be empty"),
        }
    }
}

/// The description text of each validation error.
pub open spec fn config_error_text(e: ConfigError) -> Seq<char> {
    match e {
        ConfigError::EmptyApiToken => "Cloudflare API token cannot be empty"@,
        ConfigError::NoRecords => "At least one DNS record must be configured"@,
        ConfigError::EmptyZone { .. } => "Record zone cannot be empty"@,
        ConfigError::EmptyName { .. } => "Record name cannot be empty"@,
    }
}

} // verus!
