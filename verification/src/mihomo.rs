//! Mihomo release targets, subscription format detection, and the Mihomo
//! configuration documents the library writes.

use vstd::prelude::*;
use crate::config::{deref_all, LadderConfig, LadderSettings, Subscription};
use crate::text::{
    chars_of, decimal, decimal_string, ends_with, join, push_char, starts_with, str_eq, trim,
};
use crate::url::strings_view;
use crate::yaml::{
    emit_yaml, into_mapping, is_mapping, mapping_from, mapping_keys, parse_yaml, value_bool,
    value_insert, value_of_mapping, value_seq, value_str, value_uint, yaml_as_mapping, yaml_bool,
    yaml_emit_result, yaml_is_mapping, yaml_mapping_from, yaml_mapping_keys, yaml_of_mapping,
    yaml_parse_spec, yaml_seq, yaml_str, yaml_uint, yaml_value_insert, entries_view,
};

verus! {

// ─── Platform target ────────────────────────────────────────────────────────

/// A Mihomo release platform (`os` as Mihomo names it, e.g. `darwin`).
pub struct MihomoTarget {
    pub os: &'static str,
    pub arch: &'static str,
}

/// Why the running platform has no Mihomo release.
#[derive(Debug)]
pub enum TargetError {
    UnsupportedOs(String),
    UnsupportedArch(String),
}

/// Mihomo's name for a Rust `target_os`, if it has a release.
pub open spec fn mihomo_os(os: Seq<char>) -> Option<Seq<char>> {
    if os == "linux"@ {
        Some("linux"@)
    } else if os == "macos"@ {
        Some("darwin"@)
    } else {
        None
    }
}

/// Mihomo's name for a Rust `target_arch`, if it has a release.
pub open spec fn mihomo_arch(arch: Seq<char>) -> Option<Seq<char>> {
    if arch == "x86_64"@ {
        Some("amd64"@)
    } else if arch == "aarch64"@ {
        Some("arm64"@)
    } else {
        None
    }
}

/// `mihomo-<os>-<arch>-<version>`.
pub open spec fn release_stem(os: Seq<char>, arch: Seq<char>, version: Seq<char>) -> Seq<char> {
    "mihomo-"@ + os + "-"@ + arch + "-"@ + version
}

/// `mihomo-<os>-<arch>-<version>.gz`, the release asset file name.
pub open spec fn asset_name_spec(os: Seq<char>, arch: Seq<char>, version: Seq<char>) -> Seq<char> {
    release_stem(os, arch, version) + ".gz"@
}

/// The release asset's download URL.
pub open spec fn download_url_spec(os: Seq<char>, arch: Seq<char>, version: Seq<char>) -> Seq<char> {
    release_prefix() + version + "/"@ + release_stem(os, arch, version) + ".gz"@
}

/// The GitHub release download prefix.
pub open spec fn release_prefix() -> Seq<char> {
    "https://github.com/MetaCubeX/mihomo/releases/download/"@
}

fn release_stem_string(os: &str, arch: &str, version: &str) -> (s: String)
    ensures
        s@ == release_stem(os@, arch@, version@),
{
    let mut s = String::from_str("mihomo-");
    s.append(os);
    s.append("-");
    s.append(arch);
    s.append("-");
    s.append(version);
    s
}

impl MihomoTarget {
    /// The Mihomo target for a Rust `target_os` and `target_arch`
    /// (`std::env::consts::{OS, ARCH}`).
    pub fn current(os: &str, arch: &str) -> (res: Result<MihomoTarget, TargetError>)
        ensures
            match (mihomo_os(os@), mihomo_arch(arch@)) {
                (None, _) => res matches Err(TargetError::UnsupportedOs(o)) && o@ == os@,
                (Some(_), None) => res matches Err(TargetError::UnsupportedArch(a)) && a@
                    == arch@,
                (Some(o), Some(a)) => res matches Ok(t) && t.os@ == o && t.arch@ == a,
            },
    {
        let mos: &'static str = if str_eq(os, "linux") {
            "linux"
        } else if str_eq(os, "macos") {
            "darwin"
        } else {
            return Err(TargetError::UnsupportedOs(String::from_str(os)));
        };
        let march: &'static str = if str_eq(arch, "x86_64") {
            "amd64"
        } else if str_eq(arch, "aarch64") {
            "arm64"
        } else {
            return Err(TargetError::UnsupportedArch(String::from_str(arch)));
        };
        Ok(MihomoTarget { os: mos, arch: march })
    }

    /// GitHub release asset file name, e.g. `mihomo-linux-amd64-v1.18.0.gz`.
    pub fn asset_name(&self, version: &str) -> (s: String)
        ensures
            s@ == asset_name_spec(self.os@, self.arch@, version@),
    {
        let mut s = release_stem_string(self.os, self.arch, version);
        s.append(".gz");
        s
    }

    /// Download URL of the release asset.
    pub fn download_url(&self, version: &str) -> (s: String)
        ensures
            s@ == download_url_spec(self.os@, self.arch@, version@),
    {
        let mut s = String::from_str("https://github.com/MetaCubeX/mihomo/releases/download/");
        s.append(version);
        s.append("/");
        let stem = release_stem_string(self.os, self.arch, version);
        s.append(stem.as_str());
        s.append(".gz");
        s
    }
}

/// The download URL starts with the release prefix and the version, and
/// ends with `/` and the asset name for the same version.
pub proof fn law_download_url_names_asset(os: Seq<char>, arch: Seq<char>, version: Seq<char>)
    ensures
        starts_with(download_url_spec(os, arch, version), release_prefix() + version),
        ends_with(download_url_spec(os, arch, version), "/"@ + asset_name_spec(os, arch, version)),
{
    let u = download_url_spec(os, arch, version);
    let p = release_prefix() + version;
    let t = "/"@ + asset_name_spec(os, arch, version);
    assert(u =~= p + t);
    assert(u.subrange(0, p.len() as int) =~= p);
    assert(u.subrange(u.len() - t.len(), u.len() as int) =~= t);
}

// ─── Subscription format ────────────────────────────────────────────────────

/// Detected format of a subscription document.
#[derive(Debug, Clone, Copy, PartialEq, Eq, Structural)]
pub enum SubscriptionFormat {
    /// A full Clash/Mihomo configuration.
    FullConfig,
    /// Only a proxies list, usable as a proxy-provider.
    ProxyProvider,
    /// Not a supported Mihomo/Clash YAML document.
    Unknown,
}

/// Top-level keys that mark a full configuration.
pub open spec fn full_config_keys() -> Seq<Seq<char>> {
    seq![
        "rules"@,
        "proxy-groups"@,
        "proxy-providers"@,
        "rule-providers"@,
        "mode"@,
        "mixed-port"@,
        "port"@,
        "socks-port"@,
        "redir-port"@,
        "tproxy-port"@,
        "external-controller"@,
        "secret"@,
        "dns"@,
        "tun"@,
        "listeners"@,
        "sniffer"@,
        "hosts"@,
    ]
}

/// Whether one of `keys` is the string key `k`.
pub open spec fn has_key(keys: Seq<Option<Seq<char>>>, k: Seq<char>) -> bool {
    exists|i: int| 0 <= i < keys.len() && keys[i] == Some(k)
}

/// The format given by a document's top-level keys.
pub open spec fn format_of_keys(keys: Seq<Option<Seq<char>>>) -> SubscriptionFormat {
    if exists|j: int| 0 <= j < full_config_keys().len() && has_key(keys, full_config_keys()[j]) {
        SubscriptionFormat::FullConfig
    } else if has_key(keys, "proxies"@) {
        SubscriptionFormat::ProxyProvider
    } else {
        SubscriptionFormat::Unknown
    }
}

/// The format of a subscription text: unknown unless it parses as a YAML
/// mapping, else given by its keys.
pub open spec fn format_of_text(text: Seq<char>) -> SubscriptionFormat {
    match yaml_parse_spec(text) {
        None => SubscriptionFormat::Unknown,
        Some(v) => match yaml_as_mapping(v) {
            None => SubscriptionFormat::Unknown,
            Some(m) => format_of_keys(yaml_mapping_keys(m)),
        },
    }
}

fn full_config_key_list() -> (v: Vec<String>)
    ensures
        strings_view(v@) == full_config_keys(),
{
    let mut v: Vec<String> = Vec::new();
    v.push(String::from_str("rules"));
    v.push(String::from_str("proxy-groups"));
    v.push(String::from_str("proxy-providers"));
    v.push(String::from_str("rule-providers"));
    v.push(String::from_str("mode"));
    v.push(String::from_str("mixed-port"));
    v.push(String::from_str("port"));
    v.push(String::from_str("socks-port"));
    v.push(String::from_str("redir-port"));
    v.push(String::from_str("tproxy-port"));
    v.push(String::from_str("external-controller"));
    v.push(String::from_str("secret"));
    v.push(String::from_str("dns"));
    v.push(String::from_str("tun"));
    v.push(String::from_str("listeners"));
    v.push(String::from_str("sniffer"));
    v.push(String::from_str("hosts"));
    assert(strings_view(v@) =~= full_config_keys());
    v
}

/// The view of a list of optional strings.
pub open spec fn opt_strings_view(keys: Seq<Option<String>>) -> Seq<Option<Seq<char>>> {
    Seq::new(
        keys.len(),
        |i: int|
            match keys[i] {
                Some(s) => Some(s@),
                None => None,
            },
    )
}

/// Whether one of `keys` is the string key `k`.
fn keys_contain(keys: &Vec<Option<String>>, k: &String) -> (res: bool)
    ensures
        res == has_key(opt_strings_view(keys@), k@),
{
    let ghost kv = opt_strings_view(keys@);
    let mut i: usize = 0;
    while i < keys.len()
        invariant
            i <= keys.len(),
            kv == opt_strings_view(keys@),
            forall|j: int| 0 <= j < i ==> kv[j] != Some(k@),
        decreases keys.len() - i,
    {
        match &keys[i] {
            Some(s) => {
                if *s == *k {
                    assert(kv[i as int] == Some(k@));
                    return true;
                }
            },
            None => {},
        }
        i = i + 1;
    }
    false
}

/// The format given by a document's top-level keys: a full configuration
/// if any full-config key is present, else a proxy-provider if `proxies`
/// is present, else unknown.
pub fn format_from_keys(keys: &Vec<Option<String>>) -> (f: SubscriptionFormat)
    ensures
        f == format_of_keys(opt_strings_view(keys@)),
{
    let ghost kv = opt_strings_view(keys@);
    let names = full_config_key_list();
    let mut j: usize = 0;
    while j < names.len()
        invariant
            j <= names.len(),
            strings_view(names@) == full_config_keys(),
            kv == opt_strings_view(keys@),
            forall|t: int| 0 <= t < j ==> !has_key(kv, #[trigger] full_config_keys()[t]),
        decreases names.len() - j,
    {
        if keys_contain(keys, &names[j]) {
            assert(full_config_keys()[j as int] == names@[j as int]@);
            return SubscriptionFormat::FullConfig;
        }
        assert(full_config_keys()[j as int] == names@[j as int]@);
        j = j + 1;
    }
    let proxies = String::from_str("proxies");
    if keys_contain(keys, &proxies) {
        SubscriptionFormat::ProxyProvider
    } else {
        SubscriptionFormat::Unknown
    }
}

/// Detects the format of a downloaded subscription document.
pub fn detect_subscription_format(yaml_text: &str) -> (f: SubscriptionFormat)
    ensures
        f == format_of_text(yaml_text@),
{
    match parse_yaml(yaml_text) {
        None => SubscriptionFormat::Unknown,
        Some(v) => match into_mapping(v) {
            None => SubscriptionFormat::Unknown,
            Some(m) => {
                let keys = mapping_keys(&m);
                assert(opt_strings_view(keys@) =~= yaml_mapping_keys(m));
                format_from_keys(&keys)
            },
        },
    }
}


// ─── Release download ───────────────────────────────────────────────────────

/// What `flate2::read::GzDecoder` reads to the end from `data`: the
/// decompressed bytes of the gzip stream, or `None` where reading fails.
pub uninterp spec fn gunzip_spec(data: Seq<u8>) -> Option<Seq<u8>>;

/// Decompresses a gzip stream with `flate2::read::GzDecoder` and
/// `read_to_end`; a read error becomes `None`. The contract names the
/// outcome, which depends on the bytes alone.
#[verifier::external_body]
pub(crate) fn gunzip(data: &[u8]) -> (res: Option<Vec<u8>>)
    ensures
        match res {
            Some(v) => gunzip_spec(data@) == Some(v@),
            None => gunzip_spec(data@) is None,
        },
{
    let mut decoder = flate2::read::GzDecoder::new(data);
    let mut out: Vec<u8> = Vec::new();
    match std::io::Read::read_to_end(&mut decoder, &mut out) {
        Ok(_) => Some(out),
        Err(_) => None,
    }
}

/// Why a downloaded Mihomo release could not be unpacked.
#[derive(Debug, Clone, PartialEq, Eq)]
pub enum DownloadError {
    /// The download answered with a failure status (as displayed).
    Http(String),
    /// The body is not a gzip stream that decompresses.
    Decompress,
}

/// The Mihomo executable from a release download: a failure status is an
/// error carrying it; otherwise the body is gunzipped.
pub fn unpack_mihomo_download(success: bool, status: &str, body: &[u8]) -> (res: Result<
    Vec<u8>,
    DownloadError,
>)
    ensures
        !success ==> (res matches Err(DownloadError::Http(s)) && s@ == status@),
        success ==> match gunzip_spec(body@) {
            Some(b) => res matches Ok(v) && v@ == b,
            None => res matches Err(DownloadError::Decompress),
        },
{
    if !success {
        return Err(DownloadError::Http(String::from_str(status)));
    }
    match gunzip(body) {
        Some(v) => Ok(v),
        None => Err(DownloadError::Decompress),
    }
}


// ─── Configuration documents ────────────────────────────────────────────────

/// Why a configuration document could not be produced.
#[derive(Debug, Clone, Copy, PartialEq, Eq, Structural)]
pub enum ConfigYamlError {
    /// No subscription was given.
    NoSubscriptions,
    /// The subscription text is not YAML.
    Parse,
    /// The subscription YAML is not a mapping.
    NotMapping,
    /// `serde_yaml` failed to emit the document.
    Serialize,
}

/// `127.0.0.1:<port>`, the controller address written into configurations.
pub open spec fn controller_addr(port: u16) -> Seq<char> {
    "127.0.0.1:"@ + decimal(port as nat)
}

/// The latency-test URL used by health checks and the `AUTO` group.
pub open spec fn test_url() -> Seq<char> {
    "https://www.gstatic.com/generate_204"@
}

fn controller_addr_string(port: u16) -> (s: String)
    ensures
        s@ == controller_addr(port),
{
    let mut s = String::from_str("127.0.0.1:");
    let d = decimal_string(port as u64);
    s.append(d.as_str());
    s
}

/// A full configuration with the ladder ports, controller and secret set.
pub open spec fn merged_value(doc: serde_yaml::Value, settings: LadderSettings) -> serde_yaml::Value {
    let v1 = yaml_value_insert(doc, "mixed-port"@, yaml_uint(settings.port as nat));
    let v2 = yaml_value_insert(v1, "socks-port"@, yaml_uint(settings.socks_port as nat));
    let v3 = yaml_value_insert(
        v2,
        "external-controller"@,
        yaml_str(controller_addr(settings.control_port)),
    );
    match settings.api_secret {
        Some(secret) => yaml_value_insert(v3, "secret"@, yaml_str(secret@)),
        None => v3,
    }
}

/// Merges a full Clash configuration with the ladder settings: overwrites
/// `mixed-port`, `socks-port`, `external-controller` and (when set) `secret`,
/// then emits the document again.
pub fn merge_full_config(yaml_text: &str, cfg: &LadderConfig) -> (res: Result<String, ConfigYamlError>)
    ensures
        match yaml_parse_spec(yaml_text@) {
            None => res == Err::<String, ConfigYamlError>(ConfigYamlError::Parse),
            Some(doc) => if !yaml_is_mapping(doc) {
                res == Err::<String, ConfigYamlError>(ConfigYamlError::NotMapping)
            } else {
                match yaml_emit_result(merged_value(doc, cfg.ladder)) {
                    Some(t) => res matches Ok(s) && s@ == t,
                    None => res == Err::<String, ConfigYamlError>(ConfigYamlError::Serialize),
                }
            },
        },
{
    let mut doc = match parse_yaml(yaml_text) {
        Some(v) => v,
        None => return Err(ConfigYamlError::Parse),
    };
    if !is_mapping(&doc) {
        return Err(ConfigYamlError::NotMapping);
    }
    let ghost d0 = doc;
    value_insert(&mut doc, "mixed-port", value_uint(cfg.ladder.port as u64));
    value_insert(&mut doc, "socks-port", value_uint(cfg.ladder.socks_port as u64));
    value_insert(
        &mut doc,
        "external-controller",
        value_str(controller_addr_string(cfg.ladder.control_port)),
    );
    match &cfg.ladder.api_secret {
        Some(secret) => {
            value_insert(&mut doc, "secret", value_str(secret.clone()));
        },
        None => {},
    }
    assert(doc == merged_value(d0, cfg.ladder));
    match emit_yaml(&doc) {
        Some(s) => Ok(s),
        None => Err(ConfigYamlError::Serialize),
    }
}

/// A string-keyed mapping value.
pub open spec fn map_value(entries: Seq<(Seq<char>, serde_yaml::Value)>) -> serde_yaml::Value {
    yaml_of_mapping(yaml_mapping_from(entries))
}

/// The proxy-provider entry of one subscription.
pub open spec fn provider_value(sub: Subscription) -> serde_yaml::Value {
    map_value(
        seq![
            ("type"@, yaml_str("http"@)),
            ("url"@, yaml_str(sub.url@)),
            ("interval"@, yaml_uint(sub.interval as nat)),
            (
                "health-check"@,
                map_value(
                    seq![
                        ("enable"@, yaml_bool(true)),
                        ("url"@, yaml_str(test_url())),
                        ("interval"@, yaml_uint(300)),
                    ],
                ),
            ),
        ],
    )
}

/// The `proxy-providers` mapping: one provider per subscription, keyed by name.
pub open spec fn providers_value(subs: Seq<Subscription>) -> serde_yaml::Value {
    map_value(Seq::new(subs.len(), |i: int| (subs[i].name@, provider_value(subs[i]))))
}

/// The sequence of subscription names used by the proxy groups.
pub open spec fn use_list(subs: Seq<Subscription>) -> serde_yaml::Value {
    yaml_seq(Seq::new(subs.len(), |i: int| yaml_str(subs[i].name@)))
}

/// The `PROXY` select group over all providers.
pub open spec fn proxy_group_value(subs: Seq<Subscription>) -> serde_yaml::Value {
    map_value(
        seq![
            ("name"@, yaml_str("PROXY"@)),
            ("type"@, yaml_str("select"@)),
            ("use"@, use_list(subs)),
        ],
    )
}

/// The `AUTO` url-test group over all providers.
pub open spec fn auto_group_value(subs: Seq<Subscription>) -> serde_yaml::Value {
    map_value(
        seq![
            ("name"@, yaml_str("AUTO"@)),
            ("type"@, yaml_str("url-test"@)),
            ("use"@, use_list(subs)),
            ("url"@, yaml_str(test_url())),
            ("interval"@, yaml_uint(300)),
        ],
    )
}

/// The routing rules: private and Chinese destinations go direct, the rest
/// through `PROXY`.
pub open spec fn rule_lines() -> Seq<Seq<char>> {
    seq![
        "DOMAIN-SUFFIX,local,DIRECT"@,
        "IP-CIDR,127.0.0.0/8,DIRECT"@,
        "IP-CIDR,172.16.0.0/12,DIRECT"@,
        "IP-CIDR,192.168.0.0/16,DIRECT"@,
        "IP-CIDR,10.0.0.0/8,DIRECT"@,
        "GEOIP,CN,DIRECT"@,
        "MATCH,PROXY"@,
    ]
}

/// The top-level entries of a generated Mihomo configuration.
pub open spec fn config_entries(settings: LadderSettings, subs: Seq<Subscription>) -> Seq<
    (Seq<char>, serde_yaml::Value),
> {
    let head = seq![
        ("mixed-port"@, yaml_uint(settings.port as nat)),
        ("socks-port"@, yaml_uint(settings.socks_port as nat)),
        ("allow-lan"@, yaml_bool(false)),
        ("mode"@, yaml_str("rule"@)),
        ("log-level"@, yaml_str("info"@)),
        ("external-controller"@, yaml_str(controller_addr(settings.control_port))),
    ];
    let secret: Seq<(Seq<char>, serde_yaml::Value)> = match settings.api_secret {
        Some(s) => seq![("secret"@, yaml_str(s@))],
        None => Seq::empty(),
    };
    let tail = seq![
        ("proxy-providers"@, providers_value(subs)),
        ("proxy-groups"@, yaml_seq(seq![proxy_group_value(subs), auto_group_value(subs)])),
        ("rules"@, yaml_seq(Seq::new(rule_lines().len(), |i: int| yaml_str(rule_lines()[i])))),
    ];
    head + secret + tail
}

/// The rules of a generated configuration, its last entry, are local and
/// private networks direct, then China direct, then the catch-all
/// `MATCH,PROXY` last: no earlier rule is a `MATCH` rule.
pub proof fn law_generated_rules_end_with_catch_all(settings: LadderSettings, subs: Seq<Subscription>)
    ensures
        ({
            let rules = seq![
                "DOMAIN-SUFFIX,local,DIRECT"@,
                "IP-CIDR,127.0.0.0/8,DIRECT"@,
                "IP-CIDR,172.16.0.0/12,DIRECT"@,
                "IP-CIDR,192.168.0.0/16,DIRECT"@,
                "IP-CIDR,10.0.0.0/8,DIRECT"@,
                "GEOIP,CN,DIRECT"@,
                "MATCH,PROXY"@,
            ];
            &&& config_entries(settings, subs).last() == (
                "rules"@,
                yaml_seq(Seq::new(rules.len(), |i: int| yaml_str(rules[i]))),
            )
            &&& rules.last() == "MATCH,PROXY"@
            &&& forall|i: int| 0 <= i < rules.len() - 1 ==> !starts_with(#[trigger] rules[i], "MATCH"@)
        }),
{
    let rules = seq![
        "DOMAIN-SUFFIX,local,DIRECT"@,
        "IP-CIDR,127.0.0.0/8,DIRECT"@,
        "IP-CIDR,172.16.0.0/12,DIRECT"@,
        "IP-CIDR,192.168.0.0/16,DIRECT"@,
        "IP-CIDR,10.0.0.0/8,DIRECT"@,
        "GEOIP,CN,DIRECT"@,
        "MATCH,PROXY"@,
    ];
    assert(rule_lines() =~= rules);
    assert(Seq::new(rule_lines().len(), |i: int| yaml_str(rule_lines()[i])) =~= Seq::new(
        rules.len(),
        |i: int| yaml_str(rules[i]),
    ));
    reveal_strlit("MATCH");
    reveal_strlit("DOMAIN-SUFFIX,local,DIRECT");
    reveal_strlit("IP-CIDR,127.0.0.0/8,DIRECT");
    reveal_strlit("IP-CIDR,172.16.0.0/12,DIRECT");
    reveal_strlit("IP-CIDR,192.168.0.0/16,DIRECT");
    reveal_strlit("IP-CIDR,10.0.0.0/8,DIRECT");
    reveal_strlit("GEOIP,CN,DIRECT");
    assert forall|i: int| 0 <= i < rules.len() - 1 implies !starts_with(#[trigger] rules[i], "MATCH"@) by {
        assert(rules[i][0] != 'M');
        assert(rules[i].subrange(0, 5)[0] == rules[i][0]);
    }
}

/// The generated Mihomo configuration document.
pub open spec fn config_value(settings: LadderSettings, subs: Seq<Subscription>) -> serde_yaml::Value {
    map_value(config_entries(settings, subs))
}

fn entry(key: &str, v: serde_yaml::Value) -> (e: (String, serde_yaml::Value))
    ensures
        e.0@ == key@,
        e.1 == v,
{
    (String::from_str(key), v)
}

fn str_value(s: &str) -> (v: serde_yaml::Value)
    ensures
        v == yaml_str(s@),
{
    value_str(String::from_str(s))
}

fn map_of(entries: Vec<(String, serde_yaml::Value)>) -> (v: serde_yaml::Value)
    ensures
        v == map_value(entries_view(entries@)),
{
    value_of_mapping(mapping_from(entries))
}

fn provider_of(sub: &Subscription) -> (v: serde_yaml::Value)
    ensures
        v == provider_value(*sub),
{
    let mut hc: Vec<(String, serde_yaml::Value)> = Vec::new();
    hc.push(entry("enable", value_bool(true)));
    hc.push(entry("url", str_value("https://www.gstatic.com/generate_204")));
    hc.push(entry("interval", value_uint(300)));
    let mut p: Vec<(String, serde_yaml::Value)> = Vec::new();
    p.push(entry("type", str_value("http")));
    p.push(entry("url", value_str(sub.url.clone())));
    p.push(entry("interval", value_uint(sub.interval)));
    let hcv = map_of(hc);
    p.push(entry("health-check", hcv));
    proof {
        assert(entries_view(hc@) =~= seq![
            ("enable"@, yaml_bool(true)),
            ("url"@, yaml_str(test_url())),
            ("interval"@, yaml_uint(300)),
        ]);
    }
    let v = map_of(p);
    proof {
        assert(entries_view(p@) =~= seq![
            ("type"@, yaml_str("http"@)),
            ("url"@, yaml_str(sub.url@)),
            ("interval"@, yaml_uint(sub.interval as nat)),
            ("health-check"@, hcv),
        ]);
    }
    v
}

fn use_list_of(subs: &[&Subscription]) -> (v: serde_yaml::Value)
    ensures
        v == use_list(deref_all(subs@)),
{
    let mut items: Vec<serde_yaml::Value> = Vec::new();
    let mut i: usize = 0;
    while i < subs.len()
        invariant
            i <= subs.len(),
            items@ =~= Seq::new(i as nat, |k: int| yaml_str(deref_all(subs@)[k].name@)),
        decreases subs.len() - i,
    {
        items.push(value_str(subs[i].name.clone()));
        i = i + 1;
    }
    value_seq(items)
}

/// Generates a Mihomo configuration that uses each given subscription as an
/// HTTP proxy-provider, with a `PROXY` select group and an `AUTO` url-test
/// group over all of them and a fixed rule set.
pub fn generate_config_yaml(cfg: &LadderConfig, subs: &[&Subscription]) -> (res: Result<
    String,
    ConfigYamlError,
>)
    ensures
        subs@.len() == 0 ==> res == Err::<String, ConfigYamlError>(
            ConfigYamlError::NoSubscriptions,
        ),
        subs@.len() > 0 ==> match yaml_emit_result(config_value(cfg.ladder, deref_all(subs@))) {
            Some(t) => res matches Ok(s) && s@ == t,
            None => res == Err::<String, ConfigYamlError>(ConfigYamlError::Serialize),
        },
{
    if subs.len() == 0 {
        return Err(ConfigYamlError::NoSubscriptions);
    }
    let ghost ss = deref_all(subs@);
    let mut providers: Vec<(String, serde_yaml::Value)> = Vec::new();
    let mut i: usize = 0;
    while i < subs.len()
        invariant
            i <= subs.len(),
            ss == deref_all(subs@),
            entries_view(providers@) =~= Seq::new(
                i as nat,
                |k: int| (ss[k].name@, provider_value(ss[k])),
            ),
        decreases subs.len() - i,
    {
        let pv = provider_of(subs[i]);
        let nm = subs[i].name.clone();
        assert(ss[i as int] == *subs@[i as int]);
        let ghost before = entries_view(providers@);
        providers.push((nm, pv));
        assert(entries_view(providers@) =~= before.push((ss[i as int].name@, provider_value(ss[i as int]))));
        i = i + 1;
    }
    let providers_v = map_of(providers);
    let mut group: Vec<(String, serde_yaml::Value)> = Vec::new();
    group.push(entry("name", str_value("PROXY")));
    group.push(entry("type", str_value("select")));
    group.push(entry("use", use_list_of(subs)));
    let ghost gv = entries_view(group@);
    let group_v = map_of(group);
    let mut auto: Vec<(String, serde_yaml::Value)> = Vec::new();
    auto.push(entry("name", str_value("AUTO")));
    auto.push(entry("type", str_value("url-test")));
    auto.push(entry("use", use_list_of(subs)));
    auto.push(entry("url", str_value("https://www.gstatic.com/generate_204")));
    auto.push(entry("interval", value_uint(300)));
    let ghost av = entries_view(auto@);
    let auto_v = map_of(auto);
    proof {
        assert(gv =~= seq![
            ("name"@, yaml_str("PROXY"@)),
            ("type"@, yaml_str("select"@)),
            ("use"@, use_list(ss)),
        ]);
        assert(av =~= seq![
            ("name"@, yaml_str("AUTO"@)),
            ("type"@, yaml_str("url-test"@)),
            ("use"@, use_list(ss)),
            ("url"@, yaml_str(test_url())),
            ("interval"@, yaml_uint(300)),
        ]);
    }
    let mut groups: Vec<serde_yaml::Value> = Vec::new();
    groups.push(group_v);
    groups.push(auto_v);
    let mut rules: Vec<serde_yaml::Value> = Vec::new();
    rules.push(str_value("DOMAIN-SUFFIX,local,DIRECT"));
    rules.push(str_value("IP-CIDR,127.0.0.0/8,DIRECT"));
    rules.push(str_value("IP-CIDR,172.16.0.0/12,DIRECT"));
    rules.push(str_value("IP-CIDR,192.168.0.0/16,DIRECT"));
    rules.push(str_value("IP-CIDR,10.0.0.0/8,DIRECT"));
    rules.push(str_value("GEOIP,CN,DIRECT"));
    rules.push(str_value("MATCH,PROXY"));
    let ghost rv = rules@;
    let mut root: Vec<(String, serde_yaml::Value)> = Vec::new();
    root.push(entry("mixed-port", value_uint(cfg.ladder.port as u64)));
    root.push(entry("socks-port", value_uint(cfg.ladder.socks_port as u64)));
    root.push(entry("allow-lan", value_bool(false)));
    root.push(entry("mode", str_value("rule")));
    root.push(entry("log-level", str_value("info")));
    root.push(entry("external-controller", value_str(controller_addr_string(cfg.ladder.control_port))));
    match &cfg.ladder.api_secret {
        Some(secret) => {
            root.push(entry("secret", value_str(secret.clone())));
        },
        None => {},
    }
    let ghost gs = groups@;
    root.push(entry("proxy-providers", providers_v));
    root.push(entry("proxy-groups", value_seq(groups)));
    root.push(entry("rules", value_seq(rules)));
    proof {
        assert(rv =~= Seq::new(rule_lines().len(), |i: int| yaml_str(rule_lines()[i])));
        assert(gs =~= seq![proxy_group_value(ss), auto_group_value(ss)]);
        assert(entries_view(root@) =~= config_entries(cfg.ladder, ss));
    }
    let doc = map_of(root);
    match emit_yaml(&doc) {
        Some(s) => Ok(s),
        None => Err(ConfigYamlError::Serialize),
    }
}


// ─── Response previews ──────────────────────────────────────────────────────

/// The pieces of `s` between `\n` characters (as `str::split('\n')`).
pub open spec fn split_lines(s: Seq<char>) -> Seq<Seq<char>>
    decreases s.len(),
{
    if s.len() == 0 {
        seq![Seq::empty()]
    } else {
        let p = split_lines(s.drop_last());
        if s.last() == '\n' {
            p.push(Seq::empty())
        } else {
            p.update(p.len() - 1, p.last().push(s.last()))
        }
    }
}

proof fn lemma_split_lines_nonempty(s: Seq<char>)
    ensures
        split_lines(s).len() >= 1,
    decreases s.len(),
{
    if s.len() > 0 {
        lemma_split_lines_nonempty(s.drop_last());
    }
}

/// The trimmed lines of `pieces` that are not empty after trimming.
pub open spec fn kept_lines(pieces: Seq<Seq<char>>) -> Seq<Seq<char>>
    decreases pieces.len(),
{
    if pieces.len() == 0 {
        Seq::empty()
    } else {
        let rest = kept_lines(pieces.drop_last());
        let t = trim(pieces.last());
        if t.len() > 0 {
            rest.push(t)
        } else {
            rest
        }
    }
}

/// A one-line preview of a response body: its first three non-blank lines,
/// trimmed and joined by spaces, cut to 160 characters with `…` appended
/// when longer.
pub open spec fn preview_spec(text: Seq<char>) -> Seq<char> {
    let lines = kept_lines(split_lines(text));
    let first = if lines.len() > 3 {
        lines.subrange(0, 3)
    } else {
        lines
    };
    let normalized = join(first, " "@);
    if normalized.len() > 160 {
        normalized.subrange(0, 160).push('…')
    } else {
        normalized
    }
}

/// One-line preview of a response body (see [`preview_spec`]).
pub fn preview_text(text: &str) -> (res: String)
    ensures
        res@ == preview_spec(text@),
{
    let cs = chars_of(text);
    let n: usize = cs.len();
    let mut kept: Vec<String> = Vec::new();
    let mut start: usize = 0;
    let mut i: usize = 0;
    proof {
        assert(cs@.subrange(0, 0) =~= Seq::<char>::empty());
    }
    while i < n
        invariant
            n == cs.len(),
            start <= i <= n,
            split_lines(cs@.subrange(0, i as int)).len() >= 1,
            split_lines(cs@.subrange(0, i as int)).last() == cs@.subrange(start as int, i as int),
            strings_view(kept@) == kept_lines(split_lines(cs@.subrange(0, i as int)).drop_last()),
        decreases n - i,
    {
        let ghost pre = cs@.subrange(0, i as int);
        let ghost post = cs@.subrange(0, i + 1);
        proof {
            assert(post.drop_last() =~= pre);
            lemma_split_lines_nonempty(pre);
        }
        if cs[i] == '\n' {
            let (a, b) = crate::text::trim_bounds_in(&cs, start, i);
            let ghost before = strings_view(kept@);
            if a < b {
                kept.push(crate::text::string_from_range(&cs, a, b));
            }
            proof {
                let p = split_lines(pre);
                assert(split_lines(post) == p.push(Seq::empty()));
                assert(split_lines(post).drop_last() =~= p);
                assert(p.drop_last() == p.subrange(0, p.len() - 1));
                if a < b {
                    assert(strings_view(kept@) =~= before.push(cs@.subrange(a as int, b as int)));
                } else {
                    assert(strings_view(kept@) =~= before);
                }
                assert(cs@.subrange((i + 1) as int, (i + 1) as int) =~= Seq::<char>::empty());
            }
            start = i + 1;
        } else {
            proof {
                let p = split_lines(pre);
                let q = split_lines(post);
                assert(q == p.update(p.len() - 1, p.last().push(cs@[i as int])));
                assert(q.drop_last() =~= p.drop_last());
                assert(q.last() =~= cs@.subrange(start as int, i + 1));
            }
        }
        i = i + 1;
    }
    let (a, b) = crate::text::trim_bounds_in(&cs, start, n);
    let ghost before = strings_view(kept@);
    if a < b {
        kept.push(crate::text::string_from_range(&cs, a, b));
    }
    proof {
        let p = split_lines(cs@.subrange(0, n as int));
        assert(cs@.subrange(0, n as int) =~= cs@);
        assert(p.drop_last() == p.subrange(0, p.len() - 1));
        if a < b {
            assert(strings_view(kept@) =~= before.push(cs@.subrange(a as int, b as int)));
        } else {
            assert(strings_view(kept@) =~= before);
        }
        assert(strings_view(kept@) == kept_lines(p));
    }
    let mut first: Vec<String> = Vec::new();
    let mut k: usize = 0;
    let lim: usize = if kept.len() > 3 {
        3
    } else {
        kept.len()
    };
    while k < lim
        invariant
            k <= lim <= kept.len(),
            strings_view(first@) =~= strings_view(kept@).subrange(0, k as int),
        decreases lim - k,
    {
        let c = kept[k].clone();
        let ghost before = strings_view(first@);
        first.push(c);
        assert(strings_view(first@) =~= before.push(kept@[k as int]@));
        k = k + 1;
    }
    proof {
        if kept.len() <= 3 {
            assert(strings_view(kept@).subrange(0, lim as int) =~= strings_view(kept@));
        }
    }
    let normalized = crate::env::join_strings(&first, " ");
    let nc = chars_of(normalized.as_str());
    if nc.len() > 160 {
        let mut out = crate::text::string_from_range(&nc, 0, 160);
        push_char(&mut out, '…');
        out
    } else {
        normalized
    }
}

/// The error message for a fetched subscription response that cannot be
/// used, or `None` when it can: a failed HTTP status reports the status
/// (`status` as displayed), the content type and a preview of the body; an
/// all-blank body is reported as empty.
pub open spec fn fetch_problem_spec(
    success: bool,
    status: Seq<char>,
    content_type: Option<Seq<char>>,
    text: Seq<char>,
    url: Seq<char>,
) -> Option<Seq<char>> {
    if !success {
        let ct = match content_type {
            Some(c) => c,
            None => "unknown content-type"@,
        };
        let head = "Subscription fetch failed: HTTP "@ + status + " ("@ + ct + ")"@;
        let preview = preview_spec(text);
        if preview.len() == 0 {
            Some(head)
        } else {
            Some(head + " — "@ + preview)
        }
    } else if trim(text).len() == 0 {
        Some("Subscription response is empty: "@ + url)
    } else {
        None
    }
}

/// Checks a fetched subscription response (see [`fetch_problem_spec`]).
pub fn subscription_fetch_problem(
    success: bool,
    status: &str,
    content_type: Option<&str>,
    text: &str,
    url: &str,
) -> (res: Option<String>)
    ensures
        match res {
            Some(m) => fetch_problem_spec(
                success,
                status@,
                match content_type {
                    Some(c) => Some(c@),
                    None => None,
                },
                text@,
                url@,
            ) == Some(m@),
            None => fetch_problem_spec(
                success,
                status@,
                match content_type {
                    Some(c) => Some(c@),
                    None => None,
                },
                text@,
                url@,
            ) is None,
        },
{
    if !success {
        let mut m = String::from_str("Subscription fetch failed: HTTP ");
        m.append(status);
        m.append(" (");
        match content_type {
            Some(c) => m.append(c),
            None => m.append("unknown content-type"),
        }
        m.append(")");
        let preview = preview_text(text);
        if preview.unicode_len() > 0 {
            m.append(" — ");
            m.append(preview.as_str());
        }
        return Some(m);
    }
    let t = crate::text::trim_string(text);
    if t.unicode_len() == 0 {
        let mut m = String::from_str("Subscription response is empty: ");
        m.append(url);
        return Some(m);
    }
    None
}

/// The message that refuses a subscription whose text is in no format the
/// library can run: its name and a preview of the response.
pub open spec fn unsupported_message_spec(name: Seq<char>, text: Seq<char>) -> Seq<char> {
    "Subscription '"@ + name + "' is not a supported Mihomo/Clash YAML document. Response preview: "@
        + preview_spec(text)
}

/// Refuses a subscription of an unknown format: `Some` message exactly when
/// `format` is `Unknown`.
pub fn unsupported_format_message(name: &str, format: SubscriptionFormat, text: &str) -> (res: Option<String>)
    ensures
        format == SubscriptionFormat::Unknown ==> (res matches Some(m) && m@
            == unsupported_message_spec(name@, text@)),
        format != SubscriptionFormat::Unknown ==> res is None,
{
    match format {
        SubscriptionFormat::Unknown => {
            let mut m = String::from_str("Subscription '");
            m.append(name);
            m.append("' is not a supported Mihomo/Clash YAML document. Response preview: ");
            let preview = preview_text(text);
            m.append(preview.as_str());
            Some(m)
        },
        _ => None,
    }
}

/// Detects the format of a fetched subscription text and refuses it when
/// the format is unknown (see [`unsupported_message_spec`]).
pub fn inspect_subscription(name: &str, text: &str) -> (res: Result<SubscriptionFormat, String>)
    ensures
        format_of_text(text@) == SubscriptionFormat::Unknown ==> (res matches Err(m) && m@
            == unsupported_message_spec(name@, text@)),
        format_of_text(text@) != SubscriptionFormat::Unknown ==> res == Ok::<
            SubscriptionFormat,
            String,
        >(format_of_text(text@)),
{
    let format = detect_subscription_format(text);
    match unsupported_format_message(name, format, text) {
        Some(m) => Err(m),
        None => Ok(format),
    }
}


// ─── Start and update strategies ────────────────────────────────────────────

/// How a set of fetched subscriptions is turned into a running configuration.
#[derive(Debug, Clone, Copy, PartialEq, Eq, Structural)]
pub enum ConfigStrategy {
    /// Every subscription becomes a proxy-provider of a generated configuration.
    ProxyProvider,
    /// The single subscription is a full configuration, used after merging.
    FullConfig,
}

/// Why no strategy applies.
#[derive(Debug, Clone, Copy, PartialEq, Eq, Structural)]
pub enum StrategyError {
    NoSubscriptions,
    /// A full configuration was combined with other subscriptions.
    FullConfigNotAlone,
}

/// How many of `formats` are full configurations.
pub open spec fn count_full(formats: Seq<SubscriptionFormat>) -> nat
    decreases formats.len(),
{
    if formats.len() == 0 {
        0
    } else {
        count_full(formats.drop_last()) + if formats.last() == SubscriptionFormat::FullConfig {
            1nat
        } else {
            0nat
        }
    }
}

/// The strategy for subscriptions of the given formats: none without
/// subscriptions; proxy-providers when none is a full configuration; the
/// full configuration when it is the only subscription; else refused.
pub open spec fn strategy_spec(formats: Seq<SubscriptionFormat>) -> Result<ConfigStrategy, StrategyError> {
    if formats.len() == 0 {
        Err(StrategyError::NoSubscriptions)
    } else if count_full(formats) == 0 {
        Ok(ConfigStrategy::ProxyProvider)
    } else if formats.len() != 1 {
        Err(StrategyError::FullConfigNotAlone)
    } else {
        Ok(ConfigStrategy::FullConfig)
    }
}

/// Chooses the configuration strategy (see [`strategy_spec`]).
pub fn config_strategy(formats: &[SubscriptionFormat]) -> (res: Result<ConfigStrategy, StrategyError>)
    ensures
        res == strategy_spec(formats@),
{
    if formats.len() == 0 {
        return Err(StrategyError::NoSubscriptions);
    }
    let mut full: usize = 0;
    let mut i: usize = 0;
    while i < formats.len()
        invariant
            i <= formats.len(),
            full == count_full(formats@.subrange(0, i as int)),
            full <= i,
        decreases formats.len() - i,
    {
        proof {
            assert(formats@.subrange(0, i + 1).drop_last() =~= formats@.subrange(0, i as int));
        }
        if formats[i] == SubscriptionFormat::FullConfig {
            full = full + 1;
        }
        i = i + 1;
    }
    assert(formats@.subrange(0, formats.len() as int) =~= formats@);
    if full == 0 {
        Ok(ConfigStrategy::ProxyProvider)
    } else if formats.len() != 1 {
        Err(StrategyError::FullConfigNotAlone)
    } else {
        Ok(ConfigStrategy::FullConfig)
    }
}

/// A full configuration is used only on its own, and proxy-provider mode
/// only when no subscription is a full configuration.
pub proof fn law_full_config_alone(formats: Seq<SubscriptionFormat>)
    ensures
        strategy_spec(formats) == Ok::<ConfigStrategy, StrategyError>(ConfigStrategy::FullConfig)
            ==> formats.len() == 1 && formats[0] == SubscriptionFormat::FullConfig,
        strategy_spec(formats) == Ok::<ConfigStrategy, StrategyError>(
            ConfigStrategy::ProxyProvider,
        ) ==> forall|i: int|
            0 <= i < formats.len() ==> #[trigger] formats[i] != SubscriptionFormat::FullConfig,
{
    if formats.len() == 1 {
        assert(formats.drop_last() =~= Seq::<SubscriptionFormat>::empty());
        assert(count_full(formats.drop_last()) == 0);
        assert(formats.last() == formats[0]);
    }
    lemma_count_full_zero(formats);
}

proof fn lemma_count_full_zero(formats: Seq<SubscriptionFormat>)
    ensures
        count_full(formats) == 0 ==> forall|i: int|
            0 <= i < formats.len() ==> #[trigger] formats[i] != SubscriptionFormat::FullConfig,
    decreases formats.len(),
{
    if formats.len() > 0 {
        lemma_count_full_zero(formats.drop_last());
        assert forall|i: int| 0 <= i < formats.len() - 1 implies formats.drop_last()[i]
            == formats[i] by {}
    }
}

/// Outcome of updating one subscription of a running proxy.
#[derive(Debug, Clone)]
pub struct SubscriptionUpdateReport {
    pub name: String,
    pub success: bool,
    pub detail: String,
}

/// The report for a proxy-provider refresh: `detail` is `proxy-provider` on
/// success, else the error message.
pub fn provider_update_report(name: &str, outcome: Result<(), String>) -> (r: SubscriptionUpdateReport)
    ensures
        r.name@ == name@,
        r.success == outcome is Ok,
        match outcome {
            Ok(_) => r.detail@ == "proxy-provider"@,
            Err(e) => r.detail@ == e@,
        },
{
    match outcome {
        Ok(_) => SubscriptionUpdateReport {
            name: String::from_str(name),
            success: true,
            detail: String::from_str("proxy-provider"),
        },
        Err(e) => SubscriptionUpdateReport { name: String::from_str(name), success: false, detail: e },
    }
}

/// The report for a full configuration that was written: successful either
/// way; the detail says whether Mihomo reloaded it or a restart is needed.
pub fn full_config_update_report(name: &str, reload: Result<(), String>) -> (r: SubscriptionUpdateReport)
    ensures
        r.name@ == name@,
        r.success,
        match reload {
            Ok(_) => r.detail@ == "full-config, reloaded"@,
            Err(e) => r.detail@ == "full-config, written — restart to apply ("@ + e@ + ")"@,
        },
{
    let detail = match reload {
        Ok(_) => String::from_str("full-config, reloaded"),
        Err(e) => {
            let mut d = String::from_str("full-config, written — restart to apply (");
            d.append(e.as_str());
            d.append(")");
            d
        },
    };
    SubscriptionUpdateReport { name: String::from_str(name), success: true, detail }
}

/// Description of the strategy used to start: `proxy-provider`, or
/// `full-config (<name>)` with the subscription's name.
pub fn strategy_description(strategy: ConfigStrategy, name: &str) -> (d: String)
    ensures
        match strategy {
            ConfigStrategy::ProxyProvider => d@ == "proxy-provider"@,
            ConfigStrategy::FullConfig => d@ == "full-config ("@ + name@ + ")"@,
        },
{
    match strategy {
        ConfigStrategy::ProxyProvider => String::from_str("proxy-provider"),
        ConfigStrategy::FullConfig => {
            let mut d = String::from_str("full-config (");
            d.append(name);
            d.append(")");
            d
        },
    }
}

// ─── Locating the mihomo binary ─────────────────────────────────────────────

/// Where the mihomo binary comes from.
#[derive(Debug, Clone, Copy, PartialEq, Eq, Structural)]
pub enum MihomoSource {
    /// The path the user gave.
    UserPath,
    /// The user gave a path that does not exist: an error.
    UserPathMissing,
    /// The binary cached in the data directory.
    Cached,
    /// Nothing usable: download it.
    Download,
}

/// Priority: a user-specified path (which must exist), then the cached
/// binary, then a download.
pub fn mihomo_source(user_specified: bool, user_path_exists: bool, cached_exists: bool) -> (s: MihomoSource)
    ensures
        s == (if user_specified {
            if user_path_exists {
                MihomoSource::UserPath
            } else {
                MihomoSource::UserPathMissing
            }
        } else if cached_exists {
            MihomoSource::Cached
        } else {
            MihomoSource::Download
        }),
{
    if user_specified {
        if user_path_exists {
            MihomoSource::UserPath
        } else {
            MihomoSource::UserPathMissing
        }
    } else if cached_exists {
        MihomoSource::Cached
    } else {
        MihomoSource::Download
    }
}

} // verus!
