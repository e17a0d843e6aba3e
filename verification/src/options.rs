//! The native option list a write submits: one record for the proxy-type
//! flags and one record for each string-valued option.

use vstd::prelude::*;

verus! {

/// Proxy-type flag: direct connections are allowed.
pub const PROXY_TYPE_DIRECT: u32 = 1;

/// Proxy-type flag: a manual proxy server is set.
pub const PROXY_TYPE_PROXY: u32 = 2;

/// Proxy-type flag: an auto-configuration URL is set.
pub const PROXY_TYPE_AUTO_PROXY_URL: u32 = 4;

/// Proxy-type flag: proxy settings are auto-detected.
pub const PROXY_TYPE_AUTO_DETECT: u32 = 8;

/// One per-connection option record, as handed to the native write call.
#[derive(Clone, Debug, PartialEq, Eq)]
pub enum OptionRecord {
    /// The proxy-type flags word.
    Flags(u32),
    /// The proxy-server string.
    ProxyServer(String),
    /// The bypass-list string.
    ProxyBypass(String),
    /// The auto-configuration URL string.
    AutoConfigUrl(String),
}

/// The mathematical content of an option record: strings by their text.
#[verifier::ext_equal]
pub enum RecordModel {
    Flags(u32),
    ProxyServer(Seq<char>),
    ProxyBypass(Seq<char>),
    AutoConfigUrl(Seq<char>),
}

pub open spec fn record_model(r: OptionRecord) -> RecordModel {
    match r {
        OptionRecord::Flags(f) => RecordModel::Flags(f),
        OptionRecord::ProxyServer(s) => RecordModel::ProxyServer(s@),
        OptionRecord::ProxyBypass(s) => RecordModel::ProxyBypass(s@),
        OptionRecord::AutoConfigUrl(s) => RecordModel::AutoConfigUrl(s@),
    }
}

pub open spec fn list_model(rs: Seq<OptionRecord>) -> Seq<RecordModel> {
    rs.map_values(|r: OptionRecord| record_model(r))
}

/// The option list that turns proxying off: one flags record asking for
/// direct connections.
pub open spec fn direct_model() -> Seq<RecordModel> {
    seq![RecordModel::Flags(PROXY_TYPE_DIRECT)]
}

/// The option list for a manual proxy: the flags record, the server string
/// and the bypass string.
pub open spec fn manual_model(server: Seq<char>, bypass: Seq<char>) -> Seq<RecordModel> {
    seq![
        RecordModel::Flags(PROXY_TYPE_PROXY | PROXY_TYPE_DIRECT),
        RecordModel::ProxyServer(server),
        RecordModel::ProxyBypass(bypass),
    ]
}

/// The option list for an auto-configuration URL: the flags record and the
/// URL string.
pub open spec fn auto_model(url: Seq<char>) -> Seq<RecordModel> {
    seq![
        RecordModel::Flags(PROXY_TYPE_AUTO_DETECT | PROXY_TYPE_AUTO_PROXY_URL | PROXY_TYPE_DIRECT),
        RecordModel::AutoConfigUrl(url),
    ]
}

/// Builds the option list that turns proxying off.
pub fn direct_option_list() -> (r: Vec<OptionRecord>)
    ensures
        list_model(r@) == direct_model(),
{
    let mut r: Vec<OptionRecord> = Vec::new();
    r.push(OptionRecord::Flags(PROXY_TYPE_DIRECT));
    proof {
        assert(list_model(r@) =~= direct_model());
    }
    r
}

/// Builds the option list for a manual proxy at `server` bypassing `bypass`.
pub fn manual_option_list(server: String, bypass: String) -> (r: Vec<OptionRecord>)
    ensures
        list_model(r@) == manual_model(server@, bypass@),
{
    let mut r: Vec<OptionRecord> = Vec::new();
    r.push(OptionRecord::Flags(PROXY_TYPE_PROXY | PROXY_TYPE_DIRECT));
    r.push(OptionRecord::ProxyServer(server));
    r.push(OptionRecord::ProxyBypass(bypass));
    proof {
        assert(list_model(r@) =~= manual_model(server@, bypass@));
    }
    r
}

/// Builds the option list for the auto-configuration URL `url`.
pub fn auto_option_list(url: String) -> (r: Vec<OptionRecord>)
    ensures
        list_model(r@) == auto_model(url@),
{
    let mut r: Vec<OptionRecord> = Vec::new();
    r.push(OptionRecord::Flags(PROXY_TYPE_AUTO_DETECT | PROXY_TYPE_AUTO_PROXY_URL
        | PROXY_TYPE_DIRECT));
    r.push(OptionRecord::AutoConfigUrl(url));
    proof {
        assert(list_model(r@) =~= auto_model(url@));
    }
    r
}

} // verus!
