//! The value types exchanged with callers, the reading of a snapshot out of
//! the raw persisted values, and the option lists a write submits.

use vstd::prelude::*;
use vstd::string::StringExecFns;

use crate::options::{
    auto_model, auto_option_list, direct_model, direct_option_list, list_model,
    manual_model, manual_option_list, OptionRecord,
};
use crate::parse::{
    format_host_port, host_port_seq, lemma_parse_formats_back, parse_server, spec_parse_server,
};

verus! {

/// A manual-proxy snapshot: an explicit server and a bypass list. When
/// `enable` is false the other fields are not read by a write.
#[derive(Clone, Debug, PartialEq, Eq)]
pub struct Sysproxy {
    pub enable: bool,
    pub host: String,
    pub port: u16,
    pub bypass: String,
}

/// An auto-proxy snapshot: whether an auto-configuration URL is stored, and
/// the URL itself. `enable` is derived solely from the URL's presence.
#[derive(Clone, Debug, PartialEq, Eq)]
pub struct Autoproxy {
    pub enable: bool,
    pub url: String,
}

/// What can go wrong talking to the operating system.
#[derive(Clone, Debug, PartialEq, Eq)]
pub enum ConfigError {
    /// The persisted settings location could not be opened for reading.
    StoreUnavailable,
    /// A native configuration call failed; carries the OS-reported code.
    OsApiError(u32),
}

/// The text of an optional stored string value; a missing value reads as
/// empty.
pub open spec fn stored_text(v: Option<String>) -> Seq<char> {
    match v {
        Some(s) => s@,
        None => Seq::empty(),
    }
}

/// The option list a manual-proxy write submits: the manual list with the
/// `host:port` server string when enabled, the direct list otherwise.
pub open spec fn sys_write_model(s: Sysproxy) -> Seq<crate::options::RecordModel> {
    if s.enable {
        manual_model(host_port_seq(s.host@, s.port as nat), s.bypass@)
    } else {
        direct_model()
    }
}

/// The option list an auto-proxy write submits: the auto list with the URL
/// when enabled, the direct list otherwise.
pub open spec fn auto_write_model(a: Autoproxy) -> Seq<crate::options::RecordModel> {
    if a.enable {
        auto_model(a.url@)
    } else {
        direct_model()
    }
}

impl Sysproxy {
    /// Builds the manual-proxy snapshot out of the three raw values read
    /// from the settings store; each may be missing. A missing or non-1
    /// enabled flag reads as disabled; an empty or missing server string
    /// leaves an empty host and port 0; the bypass list is kept verbatim.
    pub fn get_system_proxy(
        enable_value: Option<u32>,
        server_value: Option<String>,
        bypass_value: Option<String>,
    ) -> (r: Sysproxy)
        ensures
            r.enable == (enable_value == Some(1u32)),
            stored_text(server_value).len() == 0 ==> r.host@ == Seq::<char>::empty() && r.port
                == 0,
            stored_text(server_value).len() > 0 ==> (r.host@, r.port) == spec_parse_server(
                stored_text(server_value),
            ),
            r.bypass@ == stored_text(bypass_value),
    {
        let enable = match enable_value {
            Some(v) => v == 1,
            None => false,
        };
        let server = match server_value {
            Some(s) => s,
            None => String::new(),
        };
        let bypass = match bypass_value {
            Some(b) => b,
            None => String::new(),
        };
        let (host, port) = if server.as_str().unicode_len() > 0 {
            parse_server(server.as_str())
        } else {
            (String::new(), 0)
        };
        Sysproxy { enable, host, port, bypass }
    }

    /// The option list this snapshot's write submits: every write builds the
    /// complete target state from scratch.
    pub fn set_system_proxy(&self) -> (r: Vec<OptionRecord>)
        ensures
            list_model(r@) == sys_write_model(*self),
    {
        if self.enable {
            let server = format_host_port(self.host.as_str(), self.port);
            manual_option_list(server, self.bypass.clone())
        } else {
            direct_option_list()
        }
    }
}

impl Autoproxy {
    /// Builds the auto-proxy snapshot out of the raw stored URL: its mere
    /// presence enables auto-proxy, and a missing URL reads as disabled with
    /// an empty URL rather than as an error.
    pub fn get_auto_proxy(url_value: Option<String>) -> (r: Autoproxy)
        ensures
            r.enable == (url_value is Some),
            r.url@ == stored_text(url_value),
    {
        match url_value {
            Some(u) => Autoproxy { enable: true, url: u },
            None => Autoproxy { enable: false, url: String::new() },
        }
    }

    /// The option list this snapshot's write submits.
    pub fn set_auto_proxy(&self) -> (r: Vec<OptionRecord>)
        ensures
            list_model(r@) == auto_write_model(*self),
    {
        if self.enable {
            auto_option_list(self.url.clone())
        } else {
            direct_option_list()
        }
    }
}

/// Disabling the manual proxy and disabling the auto proxy submit the same
/// native option list: both reduce to the single direct-connection record.
pub proof fn lemma_disabled_writes_coincide(m: Sysproxy, a: Autoproxy)
    requires
        !m.enable,
        !a.enable,
    ensures
        sys_write_model(m) == auto_write_model(a),
{
}

/// Writing the same snapshot twice submits the same option list both times:
/// at the submission boundary a repeated apply changes nothing.
pub proof fn lemma_reapply_submits_same_list(
    s: Sysproxy,
    r1: Seq<OptionRecord>,
    r2: Seq<OptionRecord>,
)
    requires
        list_model(r1) == sys_write_model(s),
        list_model(r2) == sys_write_model(s),
    ensures
        list_model(r1) == list_model(r2),
{
}

/// Round trip: an enabled manual snapshot writes the server string
/// `host:port`, and parsing that string back reconstructs the same host and
/// port, provided the host does not contain `=` (which would be read as the
/// legacy multi-protocol form).
pub proof fn lemma_manual_round_trip(s: Sysproxy)
    requires
        s.enable,
        !s.host@.contains('='),
    ensures
        sys_write_model(s) == manual_model(host_port_seq(s.host@, s.port as nat), s.bypass@),
        spec_parse_server(host_port_seq(s.host@, s.port as nat)) == (s.host@, s.port),
{
    lemma_parse_formats_back(s.host@, s.port);
}

} // verus!
