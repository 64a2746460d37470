//! Supervision of the outbound tunnel process.
//!
//! The manager holds the durable tunnel configuration and whether a child
//! process is being tracked. It never touches a process itself: each method
//! decides, from the state and from what the caller observed, what the next
//! state is and what the caller has to do (spawn this command, kill the
//! child, store this configuration). The watchdog is a function of the same
//! kind.

use vstd::prelude::*;
use vstd::string::*;
use crate::random::new_uuid_bytes;
use crate::text::{after_last, after_last_chars, contains, contains_text, decimal_text, find, find_text, first_word_from, first_word_marked, letters, letters_of, mark_spaces, marked_space, opt_text, push_chars, push_decimal, slice_chars, str_eq, string_from_chars, string_views, strip_prefix_repeated, strip_prefix_repeated_chars, to_chars, trim, trim_end_char, trim_end_char_chars, trim_marked, trim_marked_chars, trimmed};

verus! {

/// Port on which the hub's HTTP API listens; tunnels must point at it.
pub const HUB_API_PORT: u16 = 9090;

// ---------------------------------------------------------------------------
// Data
// ---------------------------------------------------------------------------

/// Whether the tunnel binary is present, and its version line.
#[derive(Debug)]
pub struct CloudflaredStatus {
    pub installed: bool,
    pub version: Option<String>,
    pub error: Option<String>,
}

/// The durable description of the active tunnel.
#[derive(Debug)]
pub struct TunnelConfig {
    pub tunnel_id: String,
    pub tunnel_name: String,
    pub hostname: String,
    pub local_port: u16,
    pub created_at: String,
    /// `"quick"` or `"named"`.
    pub mode: String,
    /// Token of a provisioned tunnel; empty for a quick tunnel.
    pub tunnel_token: String,
}

/// What a status query reports.
#[derive(Debug)]
pub struct TunnelStatus {
    pub configured: bool,
    pub running: bool,
    pub config: Option<TunnelConfig>,
    pub error: Option<String>,
}

/// The mathematical value of a [`TunnelConfig`].
pub struct TunnelConfigView {
    pub tunnel_id: Seq<char>,
    pub tunnel_name: Seq<char>,
    pub hostname: Seq<char>,
    pub local_port: u16,
    pub created_at: Seq<char>,
    pub mode: Seq<char>,
    pub tunnel_token: Seq<char>,
}

impl View for TunnelConfig {
    type V = TunnelConfigView;

    open spec fn view(&self) -> TunnelConfigView {
        TunnelConfigView {
            tunnel_id: self.tunnel_id@,
            tunnel_name: self.tunnel_name@,
            hostname: self.hostname@,
            local_port: self.local_port,
            created_at: self.created_at@,
            mode: self.mode@,
            tunnel_token: self.tunnel_token@,
        }
    }
}

impl Clone for TunnelConfig {
    fn clone(&self) -> (r: Self)
        ensures
            r@ == self@,
    {
        TunnelConfig {
            tunnel_id: self.tunnel_id.clone(),
            tunnel_name: self.tunnel_name.clone(),
            hostname: self.hostname.clone(),
            local_port: self.local_port,
            created_at: self.created_at.clone(),
            mode: self.mode.clone(),
            tunnel_token: self.tunnel_token.clone(),
        }
    }
}

/// The view of an optional configuration.
pub open spec fn config_view(c: Option<TunnelConfig>) -> Option<TunnelConfigView> {
    match c {
        Some(c) => Some(c@),
        None => None,
    }
}

/// Why a tunnel operation was refused.
#[derive(Debug, Clone, Copy, PartialEq, Eq, Structural)]
pub enum TunnelError {
    /// A child process is already tracked.
    AlreadyRunning,
    /// No configuration has been stored yet.
    NotConfigured,
    /// A configuration without token needs a configuration file, and there is none.
    ConfigFileMissing,
    /// The quick tunnel never announced its public URL.
    NoPublicUrl,
    /// The quick tunnel did not announce its public URL in time.
    UrlTimeout,
    /// The provider knows no account for the API token.
    NoAccount,
    /// The provider refused to create the tunnel.
    TunnelRejected,
    /// The provider refused the ingress rules.
    IngressRejected,
}

impl TunnelError {
    /// The message shown to the user.
    pub fn message(&self) -> (r: String)
        ensures
            r@ == tunnel_error_text(*self),
    {
        match self {
            TunnelError::AlreadyRunning => String::from_str("Tunnel is already running"),
            TunnelError::NotConfigured => String::from_str(
                "Tunnel not configured. Run setup first.",
            ),
            TunnelError::ConfigFileMissing => String::from_str(
                "Tunnel config not found. Run setup first.",
            ),
            TunnelError::NoPublicUrl => String::from_str("Could not determine quick tunnel URL"),
            TunnelError::UrlTimeout => String::from_str("Timed out waiting for quick tunnel URL"),
            TunnelError::NoAccount => String::from_str(
                "No Cloudflare accounts found for this API token",
            ),
            TunnelError::TunnelRejected => String::from_str("Failed to create tunnel via API"),
            TunnelError::IngressRejected => String::from_str("Failed to configure tunnel ingress"),
        }
    }
}

/// The message of each error.
pub open spec fn tunnel_error_text(e: TunnelError) -> Seq<char> {
    match e {
        TunnelError::AlreadyRunning => "Tunnel is already running"@,
        TunnelError::NotConfigured => "Tunnel not configured. Run setup first."@,
        TunnelError::ConfigFileMissing => "Tunnel config not found. Run setup first."@,
        TunnelError::NoPublicUrl => "Could not determine quick tunnel URL"@,
        TunnelError::UrlTimeout => "Timed out waiting for quick tunnel URL"@,
        TunnelError::NoAccount => "No Cloudflare accounts found for this API token"@,
        TunnelError::TunnelRejected => "Failed to create tunnel via API"@,
        TunnelError::IngressRejected => "Failed to configure tunnel ingress"@,
    }
}

// ---------------------------------------------------------------------------
// Reading the tunnel's diagnostic stream
// ---------------------------------------------------------------------------

/// The public URL that marked text announces, if it announces one: the
/// text is trimmed; from the first `https://` on, it must mention
/// `trycloudflare.com`; the URL is the first word from there, without any
/// `|` at its end.
pub open spec fn quick_url_marked(line: Seq<(char, bool)>) -> Option<Seq<char>> {
    let t = trim_marked(line);
    match find_text(letters(t), "https://"@) {
        None => None,
        Some(i) => {
            let part = t.skip(i);
            if contains_text(letters(part), "trycloudflare.com"@) {
                let word = first_word_marked(part);
                Some(
                    trim_end_char(
                        if word.len() == 0 {
                            letters(part)
                        } else {
                            word
                        },
                        '|',
                    ),
                )
            } else {
                None
            }
        },
    }
}

/// The public URL that a line of the quick tunnel's diagnostic stream
/// announces, if it announces one (see [`quick_url_marked`]).
pub open spec fn quick_tunnel_url(line: Seq<char>) -> Option<Seq<char>> {
    quick_url_marked(marked_space(line))
}

/// The host name inside a public URL: without the scheme in front and
/// without slashes at the end.
pub open spec fn hostname_of_url(url: Seq<char>) -> Seq<char> {
    trim_end_char(strip_prefix_repeated(url, "https://"@), '/')
}

/// Looks for the public URL in a line whose white space is marked.
pub fn parse_quick_url_marked(line: &Vec<(char, bool)>) -> (r: Option<String>)
    ensures
        opt_text(r) == quick_url_marked(line@),
{
    let t = trim_marked_chars(line);
    let text = letters_of(&t);
    let scheme = to_chars("https://");
    match find(&text, &scheme) {
        None => None,
        Some(i) => {
            let part = slice_chars(&text, i, text.len());
            assert(part@ =~= letters(t@.skip(i as int)));
            let domain = to_chars("trycloudflare.com");
            if contains(&part, &domain) {
                let word = first_word_from(&t, i);
                let url = if word.len() == 0 {
                    trim_end_char_chars(&part, '|')
                } else {
                    trim_end_char_chars(&word, '|')
                };
                Some(string_from_chars(&url))
            } else {
                None
            }
        },
    }
}

/// Looks for the public URL in one line of the quick tunnel's diagnostic
/// stream.
pub fn parse_quick_tunnel_url(line: &str) -> (r: Option<String>)
    ensures
        opt_text(r) == quick_tunnel_url(line@),
{
    let raw = to_chars(line);
    let marked = mark_spaces(&raw);
    parse_quick_url_marked(&marked)
}

/// The host name inside a public URL.
pub fn hostname_from_url(url: &str) -> (r: String)
    ensures
        r@ == hostname_of_url(url@),
{
    let u = to_chars(url);
    let scheme = to_chars("https://");
    let rest = strip_prefix_repeated_chars(&u, &scheme);
    let host = trim_end_char_chars(&rest, '/');
    string_from_chars(&host)
}

/// How reading the diagnostic stream of a quick tunnel ended.
#[derive(Debug)]
pub enum UrlScan {
    /// A line announced this public URL.
    Found(String),
    /// The stream ended before a URL was announced.
    StreamEnded,
    /// The time was over before a URL was announced.
    TimedOut,
}

/// What the start of a quick tunnel comes to, by what the scan of its
/// diagnostic stream showed: the host name of the announced URL, or the
/// failure of the start where no URL was announced.
pub open spec fn quick_start_view(scan: UrlScan) -> Result<Seq<char>, TunnelError> {
    match scan {
        UrlScan::Found(u) => Ok(hostname_of_url(u@)),
        UrlScan::StreamEnded => Err(TunnelError::NoPublicUrl),
        UrlScan::TimedOut => Err(TunnelError::UrlTimeout),
    }
}

/// Decides the start of a quick tunnel by what the scan of its diagnostic
/// stream showed. On an error the caller kills the child; the tunnel has
/// not started.
pub fn quick_start_outcome(scan: &UrlScan) -> (r: Result<String, TunnelError>)
    ensures
        match *scan {
            UrlScan::Found(u) => r is Ok && r->Ok_0@ == hostname_of_url(u@),
            UrlScan::StreamEnded => r == Err::<String, TunnelError>(TunnelError::NoPublicUrl),
            UrlScan::TimedOut => r == Err::<String, TunnelError>(TunnelError::UrlTimeout),
        },
{
    match scan {
        UrlScan::Found(u) => Ok(hostname_from_url(u.as_str())),
        UrlScan::StreamEnded => Err(TunnelError::NoPublicUrl),
        UrlScan::TimedOut => Err(TunnelError::UrlTimeout),
    }
}

// ---------------------------------------------------------------------------
// Commands
// ---------------------------------------------------------------------------

/// How the tunnel process is to be started.
#[derive(Debug)]
pub enum LaunchPlan {
    /// An ephemeral tunnel to the given local URL; its public URL has to be
    /// read from the diagnostic stream.
    Quick { local_url: String },
    /// A provisioned tunnel, run with its token.
    Token { token: String },
    /// A tunnel described by a configuration file.
    ConfigFile,
}

/// The view of a launch plan.
pub enum LaunchPlanView {
    Quick { local_url: Seq<char> },
    Token { token: Seq<char> },
    ConfigFile,
}

impl View for LaunchPlan {
    type V = LaunchPlanView;

    open spec fn view(&self) -> LaunchPlanView {
        match self {
            LaunchPlan::Quick { local_url } => LaunchPlanView::Quick { local_url: local_url@ },
            LaunchPlan::Token { token } => LaunchPlanView::Token { token: token@ },
            LaunchPlan::ConfigFile => LaunchPlanView::ConfigFile,
        }
    }
}

/// The local URL that a tunnel to `port` forwards to.
pub open spec fn local_url_text(port: u16) -> Seq<char> {
    "http://localhost:"@ + decimal_text(port as nat)
}

/// The local URL that a tunnel to `port` forwards to.
pub fn local_url(port: u16) -> (r: String)
    ensures
        r@ == local_url_text(port),
{
    let mut v = to_chars("http://localhost:");
    push_decimal(&mut v, port as u64);
    string_from_chars(&v)
}

/// The arguments of the tunnel command for a plan.
pub open spec fn launch_args_view(plan: LaunchPlanView, config_path: Seq<char>) -> Seq<Seq<char>> {
    match plan {
        LaunchPlanView::Quick { local_url } => seq!["tunnel"@, "--url"@, local_url],
        LaunchPlanView::Token { token } => seq!["tunnel"@, "run"@, "--token"@, token],
        LaunchPlanView::ConfigFile => seq!["tunnel"@, "--config"@, config_path, "run"@],
    }
}

/// The arguments of the tunnel command for a plan; `config_path` is used by
/// [`LaunchPlan::ConfigFile`] only.
pub fn launch_args(plan: &LaunchPlan, config_path: &str) -> (r: Vec<String>)
    ensures
        string_views(r@) == launch_args_view(plan@, config_path@),
{
    let mut r: Vec<String> = Vec::new();
    r.push(String::from_str("tunnel"));
    match plan {
        LaunchPlan::Quick { local_url } => {
            r.push(String::from_str("--url"));
            r.push(local_url.clone());
        },
        LaunchPlan::Token { token } => {
            r.push(String::from_str("run"));
            r.push(String::from_str("--token"));
            r.push(token.clone());
        },
        LaunchPlan::ConfigFile => {
            r.push(String::from_str("--config"));
            r.push(String::from_str(config_path));
            r.push(String::from_str("run"));
        },
    }
    assert(string_views(r@) =~= launch_args_view(plan@, config_path@));
    r
}

// ---------------------------------------------------------------------------
// The manager
// ---------------------------------------------------------------------------

/// The states of the supervised tunnel.
#[derive(Debug, Clone, Copy, PartialEq, Eq, Structural)]
pub enum TunnelState {
    /// No configuration is stored.
    Unconfigured,
    /// A configuration is stored and no child process is tracked.
    ConfiguredStopped,
    /// A child process is tracked.
    Running,
}

/// What polling the tracked child process showed.
#[derive(Debug, Clone, Copy, PartialEq, Eq, Structural)]
pub enum ChildPoll {
    /// The child has not exited.
    Alive,
    /// The child has exited.
    Exited,
    /// The child could not be polled.
    Failed,
}

/// The tunnel's configuration and whether its process is tracked.
pub struct TunnelManager {
    install_path: String,
    child_tracked: bool,
    config: Option<TunnelConfig>,
}

/// The configuration of a quick tunnel whose public URL is `public_url`.
pub open spec fn quick_config_view(public_url: Seq<char>, local_port: u16, now: Seq<char>) -> TunnelConfigView {
    TunnelConfigView {
        tunnel_id: "quick"@,
        tunnel_name: "quick-tunnel"@,
        hostname: hostname_of_url(public_url),
        local_port,
        created_at: now,
        mode: "quick"@,
        tunnel_token: Seq::empty(),
    }
}

/// The configuration of a provisioned tunnel.
pub open spec fn named_config_view(
    tunnel_id: Seq<char>,
    tunnel_token: Seq<char>,
    tunnel_name: Seq<char>,
    hostname: Seq<char>,
    local_port: u16,
    now: Seq<char>,
) -> TunnelConfigView {
    TunnelConfigView {
        tunnel_id,
        tunnel_name,
        hostname,
        local_port,
        created_at: now,
        mode: "named"@,
        tunnel_token,
    }
}

/// The plan by which a stored configuration is started.
pub open spec fn start_plan(
    running: bool,
    config: Option<TunnelConfigView>,
    config_file_exists: bool,
) -> Result<LaunchPlanView, TunnelError> {
    if running {
        Err(TunnelError::AlreadyRunning)
    } else {
        match config {
            None => Err(TunnelError::NotConfigured),
            Some(c) => if c.mode == "quick"@ {
                Ok(LaunchPlanView::Quick { local_url: local_url_text(c.local_port) })
            } else if c.tunnel_token.len() > 0 {
                Ok(LaunchPlanView::Token { token: c.tunnel_token })
            } else if config_file_exists {
                Ok(LaunchPlanView::ConfigFile)
            } else {
                Err(TunnelError::ConfigFileMissing)
            },
        }
    }
}

/// The configuration after a start: a quick tunnel that announced a new
/// host name takes it; anything else stays as it was.
pub open spec fn config_after_start(
    config: Option<TunnelConfigView>,
    new_hostname: Option<Seq<char>>,
) -> Option<TunnelConfigView> {
    match (config, new_hostname) {
        (Some(c), Some(h)) => if c.mode == "quick"@ && h.len() > 0 {
            Some(TunnelConfigView { hostname: h, ..c })
        } else {
            Some(c)
        },
        _ => config,
    }
}

/// The view of a plan or its refusal.
pub open spec fn plan_view(r: Result<LaunchPlan, TunnelError>) -> Result<LaunchPlanView, TunnelError> {
    match r {
        Ok(p) => Ok(p@),
        Err(e) => Err(e),
    }
}

/// The view of a configuration or its refusal.
pub open spec fn config_result_view(r: Result<TunnelConfig, TunnelError>) -> Result<
    TunnelConfigView,
    TunnelError,
> {
    match r {
        Ok(c) => Ok(c@),
        Err(e) => Err(e),
    }
}

impl TunnelManager {
    /// Whether a child process is tracked.
    pub closed spec fn running(&self) -> bool {
        self.child_tracked
    }

    /// The stored configuration.
    pub closed spec fn config(&self) -> Option<TunnelConfigView> {
        config_view(self.config)
    }

    /// The installation that this manager belongs to.
    pub closed spec fn install_path_view(&self) -> Seq<char> {
        self.install_path@
    }

    /// The state of the supervised tunnel.
    pub open spec fn state(&self) -> TunnelState {
        if self.running() {
            TunnelState::Running
        } else if self.config() is Some {
            TunnelState::ConfiguredStopped
        } else {
            TunnelState::Unconfigured
        }
    }

    /// A manager for the installation at `install_path`, with the
    /// configuration that was found in the store, and no child process: after
    /// a restart nothing runs, whatever ran before.
    pub fn new(install_path: &str, stored: Option<TunnelConfig>) -> (m: Self)
        ensures
            m.install_path_view() == install_path@,
            m.config() == config_view(stored),
            !m.running(),
            m.state() == if stored is Some {
                TunnelState::ConfiguredStopped
            } else {
                TunnelState::Unconfigured
            },
    {
        TunnelManager { install_path: String::from_str(install_path), child_tracked: false, config: stored }
    }

    /// The installation path.
    pub fn install_path(&self) -> (r: &str)
        ensures
            r@ == self.install_path_view(),
    {
        self.install_path.as_str()
    }

    /// The stored configuration.
    pub fn get_config(&self) -> (r: Option<&TunnelConfig>)
        ensures
            match r {
                Some(c) => self.config() == Some(c@),
                None => self.config() is None,
            },
    {
        self.config.as_ref()
    }

    /// Whether a child process is tracked.
    pub fn is_running(&self) -> (r: bool)
        ensures
            r == self.running(),
    {
        self.child_tracked
    }

    /// Plans the start of a quick tunnel to `local_port`. Refused exactly
    /// when a child process is already tracked.
    pub fn start_quick_tunnel(&self, local_port: u16) -> (r: Result<LaunchPlan, TunnelError>)
        ensures
            plan_view(r) == if self.running() {
                Err::<LaunchPlanView, TunnelError>(TunnelError::AlreadyRunning)
            } else {
                Ok(LaunchPlanView::Quick { local_url: local_url_text(local_port) })
            },
    {
        if self.child_tracked {
            Err(TunnelError::AlreadyRunning)
        } else {
            Ok(LaunchPlan::Quick { local_url: local_url(local_port) })
        }
    }

    /// The configuration of the quick tunnel that announced `public_url`, to
    /// be stored before [`TunnelManager::quick_tunnel_started`] is called.
    /// Refused exactly when no URL was announced.
    pub fn quick_tunnel_config(public_url: &str, local_port: u16, now: &str) -> (r: Result<
        TunnelConfig,
        TunnelError,
    >)
        ensures
            config_result_view(r) == if public_url@.len() == 0 {
                Err::<TunnelConfigView, TunnelError>(TunnelError::NoPublicUrl)
            } else {
                Ok(quick_config_view(public_url@, local_port, now@))
            },
    {
        if public_url.unicode_len() == 0 {
            Err(TunnelError::NoPublicUrl)
        } else {
            let c = TunnelConfig {
                tunnel_id: String::from_str("quick"),
                tunnel_name: String::from_str("quick-tunnel"),
                hostname: hostname_from_url(public_url),
                local_port,
                created_at: String::from_str(now),
                mode: String::from_str("quick"),
                tunnel_token: String::new(),
            };
            Ok(c)
        }
    }

    /// Records that the quick tunnel runs with `config`: the configuration is
    /// replaced and the child is tracked.
    pub fn quick_tunnel_started(&mut self, config: TunnelConfig)
        ensures
            final(self).running(),
            final(self).config() == Some(config@),
            final(self).install_path_view() == old(self).install_path_view(),
            final(self).state() == TunnelState::Running,
    {
        self.config = Some(config);
        self.child_tracked = true;
    }

    /// The configuration of a tunnel that the provider has provisioned, to be
    /// stored before [`TunnelManager::setup_tunnel`] is called.
    pub fn named_tunnel_config(
        tunnel_id: &str,
        tunnel_token: &str,
        tunnel_name: &str,
        hostname: &str,
        local_port: u16,
        now: &str,
    ) -> (c: TunnelConfig)
        ensures
            c@ == named_config_view(
                tunnel_id@,
                tunnel_token@,
                tunnel_name@,
                hostname@,
                local_port,
                now@,
            ),
    {
        TunnelConfig {
            tunnel_id: String::from_str(tunnel_id),
            tunnel_name: String::from_str(tunnel_name),
            hostname: String::from_str(hostname),
            local_port,
            created_at: String::from_str(now),
            mode: String::from_str("named"),
            tunnel_token: String::from_str(tunnel_token),
        }
    }

    /// Takes over the configuration of a provisioned tunnel. Whether a child
    /// runs is not changed: from `Unconfigured` this leads to
    /// `ConfiguredStopped`.
    pub fn setup_tunnel(&mut self, config: TunnelConfig) -> (r: TunnelConfig)
        ensures
            r@ == config@,
            final(self).config() == Some(config@),
            final(self).running() == old(self).running(),
            final(self).install_path_view() == old(self).install_path_view(),
            old(self).state() == TunnelState::Unconfigured ==> final(self).state()
                == TunnelState::ConfiguredStopped,
    {
        let r = config.clone();
        self.config = Some(config);
        r
    }

    /// Plans the start of the configured tunnel. `config_file_exists` says
    /// whether the configuration file of a tunnel without token is on disk.
    pub fn start_tunnel(&self, config_file_exists: bool) -> (r: Result<LaunchPlan, TunnelError>)
        ensures
            plan_view(r) == start_plan(self.running(), self.config(), config_file_exists),
    {
        if self.child_tracked {
            return Err(TunnelError::AlreadyRunning);
        }
        match &self.config {
            None => Err(TunnelError::NotConfigured),
            Some(c) => {
                if str_eq(c.mode.as_str(), "quick") {
                    Ok(LaunchPlan::Quick { local_url: local_url(c.local_port) })
                } else if c.tunnel_token.as_str().unicode_len() > 0 {
                    Ok(LaunchPlan::Token { token: c.tunnel_token.clone() })
                } else if config_file_exists {
                    Ok(LaunchPlan::ConfigFile)
                } else {
                    Err(TunnelError::ConfigFileMissing)
                }
            },
        }
    }

    /// Records that the child process was spawned. A quick tunnel that
    /// announced a new host name takes it over.
    pub fn tunnel_started(&mut self, new_hostname: Option<&str>)
        ensures
            final(self).running(),
            final(self).state() == TunnelState::Running,
            final(self).install_path_view() == old(self).install_path_view(),
            final(self).config() == config_after_start(
                old(self).config(),
                match new_hostname {
                    Some(h) => Some(h@),
                    None => None,
                },
            ),
    {
        self.child_tracked = true;
        let old_config = self.config.take();
        match old_config {
            Some(c) => {
                match new_hostname {
                    Some(h) => {
                        if str_eq(c.mode.as_str(), "quick") && h.unicode_len() > 0 {
                            self.config = Some(
                                TunnelConfig {
                                    tunnel_id: c.tunnel_id,
                                    tunnel_name: c.tunnel_name,
                                    hostname: String::from_str(h),
                                    local_port: c.local_port,
                                    created_at: c.created_at,
                                    mode: c.mode,
                                    tunnel_token: c.tunnel_token,
                                },
                            );
                        } else {
                            self.config = Some(c);
                        }
                    },
                    None => {
                        self.config = Some(c);
                    },
                }
            },
            None => {},
        }
    }

    /// Records how the start of the configured quick tunnel went, by what
    /// the scan of its diagnostic stream showed. With an announced URL the
    /// child is tracked and the configuration takes the new host name.
    /// Without one the start has failed: nothing changes, and the caller
    /// kills the child.
    pub fn quick_scan_finished(&mut self, scan: &UrlScan) -> (r: Result<(), TunnelError>)
        ensures
            final(self).install_path_view() == old(self).install_path_view(),
            match quick_start_view(*scan) {
                Ok(h) => {
                    &&& r is Ok
                    &&& final(self).running()
                    &&& final(self).config() == config_after_start(old(self).config(), Some(h))
                },
                Err(e) => r == Err::<(), TunnelError>(e) && *final(self) == *old(self),
            },
    {
        match quick_start_outcome(scan) {
            Ok(h) => {
                self.tunnel_started(Some(h.as_str()));
                Ok(())
            },
            Err(e) => Err(e),
        }
    }

    /// Stops tracking the child. Returns whether there was a child, which
    /// the caller then has to kill. From `Running` this leads to
    /// `ConfiguredStopped`.
    pub fn stop_tunnel(&mut self) -> (kill: bool)
        ensures
            kill == old(self).running(),
            !final(self).running(),
            final(self).config() == old(self).config(),
            final(self).install_path_view() == old(self).install_path_view(),
            old(self).config() is Some ==> final(self).state() == TunnelState::ConfiguredStopped,
    {
        let kill = self.child_tracked;
        self.child_tracked = false;
        kill
    }

    /// Reports the status. `poll` is what polling the tracked child showed
    /// and is not looked at where no child is tracked. A child that has
    /// exited, or that cannot be polled, is no longer tracked: a crash shows
    /// as a change of state, never as an error.
    pub fn get_status(&mut self, poll: ChildPoll) -> (s: TunnelStatus)
        ensures
            s.running == (old(self).running() && poll == ChildPoll::Alive),
            s.configured == (old(self).config() is Some),
            config_view(s.config) == old(self).config(),
            s.error is None,
            final(self).running() == s.running,
            final(self).config() == old(self).config(),
            final(self).install_path_view() == old(self).install_path_view(),
    {
        let running = self.child_tracked && poll == ChildPoll::Alive;
        self.child_tracked = running;
        let config = match &self.config {
            Some(c) => Some(c.clone()),
            None => None,
        };
        TunnelStatus { configured: self.config.is_some(), running, config, error: None }
    }
}

// ---------------------------------------------------------------------------
// Watchdog
// ---------------------------------------------------------------------------

/// What the watchdog decides at one tick.
#[derive(Debug, Clone, Copy, PartialEq, Eq, Structural)]
pub struct WatchdogDecision {
    /// Whether the tunnel counts as having been seen running, from now on.
    pub was_running: bool,
    /// Whether the tunnel is to be started again now.
    pub restart: bool,
}

/// The watchdog's rule. A manual stop suppresses it and makes it forget that
/// the tunnel ran. Otherwise a running tunnel is remembered, and a tunnel
/// that was seen running, is still configured and runs no more is started
/// again.
pub open spec fn watchdog_rule(
    was_running: bool,
    stopped_manually: bool,
    running: bool,
    configured: bool,
) -> WatchdogDecision {
    if stopped_manually {
        WatchdogDecision { was_running: false, restart: false }
    } else if running {
        WatchdogDecision { was_running: true, restart: false }
    } else if was_running && configured {
        WatchdogDecision { was_running: false, restart: true }
    } else {
        WatchdogDecision { was_running, restart: false }
    }
}

/// One tick of the watchdog: `running` and `configured` are what the status
/// query just reported (both false where there is no manager).
pub fn watchdog_tick(was_running: bool, stopped_manually: bool, running: bool, configured: bool) -> (d:
    WatchdogDecision)
    ensures
        d == watchdog_rule(was_running, stopped_manually, running, configured),
{
    if stopped_manually {
        WatchdogDecision { was_running: false, restart: false }
    } else if running {
        WatchdogDecision { was_running: true, restart: false }
    } else if was_running && configured {
        WatchdogDecision { was_running: false, restart: true }
    } else {
        WatchdogDecision { was_running, restart: false }
    }
}

/// The watchdog never restarts a tunnel that was stopped by hand.
pub proof fn lemma_manual_stop_suppresses_restart(was_running: bool, running: bool, configured: bool)
    ensures
        !watchdog_rule(was_running, true, running, configured).restart,
        !watchdog_rule(was_running, true, running, configured).was_running,
{
}

/// A tunnel that was seen running and whose process has died is restarted
/// at the next tick, unless it was stopped by hand or lost its
/// configuration.
pub proof fn lemma_crash_is_restarted(configured: bool, stopped_manually: bool)
    ensures
        watchdog_rule(true, stopped_manually, false, configured).restart == (!stopped_manually
            && configured),
{
}

/// Once the watchdog has forgotten that the tunnel ran, it restarts nothing
/// until it sees the tunnel running again.
pub proof fn lemma_no_restart_before_seen_running(stopped_manually: bool, configured: bool)
    ensures
        !watchdog_rule(false, stopped_manually, false, configured).restart,
        !watchdog_rule(false, stopped_manually, false, configured).was_running,
{
}

// ---------------------------------------------------------------------------
// Probing the tunnel binary
// ---------------------------------------------------------------------------

/// What running `cloudflared version` showed.
#[derive(Debug)]
pub enum VersionProbe {
    /// The command could not be run.
    NotRun,
    /// The command ran and failed.
    Failed,
    /// The command ran and printed this.
    Succeeded { stdout: String },
}

/// The status of the tunnel binary. `local` is the probe of the binary in
/// the installation's own `bin` directory, `None` where that file does not
/// exist; `system` is the probe of the search path and is looked at only
/// where `local` is `None`.
pub fn check_cloudflared(local: Option<VersionProbe>, system: VersionProbe) -> (s: CloudflaredStatus)
    ensures
        match local {
            Some(VersionProbe::Succeeded { stdout }) => s.installed && opt_text(s.version) == Some(
                trim(stdout@),
            ) && s.error is None,
            Some(_) => s.installed && s.version is None && s.error is None,
            None => match system {
                VersionProbe::Succeeded { stdout } => s.installed && opt_text(s.version) == Some(
                    trim(stdout@),
                ) && s.error is None,
                VersionProbe::Failed => s.installed && s.version is None && opt_text(s.error)
                    == Some("cloudflared returned an error"@),
                VersionProbe::NotRun => !s.installed && s.version is None && opt_text(s.error)
                    == Some("cloudflared not found"@),
            },
        },
{
    match local {
        Some(VersionProbe::Succeeded { stdout }) => CloudflaredStatus {
            installed: true,
            version: Some(trimmed(stdout.as_str())),
            error: None,
        },
        Some(_) => CloudflaredStatus { installed: true, version: None, error: None },
        None => match system {
            VersionProbe::Succeeded { stdout } => CloudflaredStatus {
                installed: true,
                version: Some(trimmed(stdout.as_str())),
                error: None,
            },
            VersionProbe::Failed => CloudflaredStatus {
                installed: true,
                version: None,
                error: Some(String::from_str("cloudflared returned an error")),
            },
            VersionProbe::NotRun => CloudflaredStatus {
                installed: false,
                version: None,
                error: Some(String::from_str("cloudflared not found")),
            },
        },
    }
}

// ---------------------------------------------------------------------------
// The supervisor: manager, manual-stop flag and watchdog memory
// ---------------------------------------------------------------------------

/// Why a tunnel command was refused.
#[derive(Debug, Clone, Copy, PartialEq, Eq, Structural)]
pub enum CommandError {
    /// There is no tunnel manager yet.
    TunnelNotConfigured,
    /// The tunnel is configured for another port than the hub API's.
    PortMismatch { configured: u16 },
    /// The manager refused.
    Tunnel(TunnelError),
}

/// The tunnel manager together with the manual-stop flag, which alone keeps
/// the watchdog from undoing a deliberate stop, and with the watchdog's
/// memory of having seen the tunnel running.
pub struct Supervisor {
    manager: Option<TunnelManager>,
    stopped_manually: bool,
    was_running: bool,
}

/// The outcome of a start command on a manager in the given state.
pub open spec fn start_command(
    manager: Option<TunnelManager>,
    config_file_exists: bool,
) -> Result<LaunchPlanView, CommandError> {
    match manager {
        None => Err(CommandError::TunnelNotConfigured),
        Some(m) => match m.config() {
            Some(c) if c.local_port != HUB_API_PORT => Err(
                CommandError::PortMismatch { configured: c.local_port },
            ),
            _ => match start_plan(m.running(), m.config(), config_file_exists) {
                Ok(p) => Ok(p),
                Err(e) => Err(CommandError::Tunnel(e)),
            },
        },
    }
}

/// The outcome of a start that nobody asked for by hand, at launch or by
/// the watchdog: that of the manager's own start.
pub open spec fn automatic_start(manager: Option<TunnelManager>, config_file_exists: bool) -> Result<
    LaunchPlanView,
    CommandError,
> {
    match manager {
        None => Err(CommandError::TunnelNotConfigured),
        Some(m) => match start_plan(m.running(), m.config(), config_file_exists) {
            Ok(p) => Ok(p),
            Err(e) => Err(CommandError::Tunnel(e)),
        },
    }
}

/// The view of a plan or of the refusal of a command.
pub open spec fn command_view(r: Result<LaunchPlan, CommandError>) -> Result<
    LaunchPlanView,
    CommandError,
> {
    match r {
        Ok(p) => Ok(p@),
        Err(e) => Err(e),
    }
}

impl Supervisor {
    /// The manager, if there is one.
    pub closed spec fn manager(&self) -> Option<TunnelManager> {
        self.manager
    }

    /// The manual-stop flag.
    pub closed spec fn stopped_manually(&self) -> bool {
        self.stopped_manually
    }

    /// Whether the watchdog has seen the tunnel running and not yet seen it
    /// stopped.
    pub closed spec fn was_running(&self) -> bool {
        self.was_running
    }

    /// Whether the tunnel is tracked as running.
    pub open spec fn running(&self) -> bool {
        self.manager() is Some && self.manager()->Some_0.running()
    }

    /// Whether a configuration is stored.
    pub open spec fn configured(&self) -> bool {
        self.manager() is Some && self.manager()->Some_0.config() is Some
    }

    /// A supervisor without manager; nothing was stopped by hand.
    pub fn new() -> (s: Self)
        ensures
            s.manager() is None,
            !s.stopped_manually(),
            !s.was_running(),
    {
        Supervisor { manager: None, stopped_manually: false, was_running: false }
    }

    /// Puts `manager` in place of the current one.
    pub fn install(&mut self, manager: TunnelManager)
        ensures
            final(self).manager() == Some(manager),
            final(self).stopped_manually() == old(self).stopped_manually(),
            final(self).was_running() == old(self).was_running(),
    {
        self.manager = Some(manager);
    }

    /// The manager, if there is one.
    pub fn manager_ref(&self) -> (r: Option<&TunnelManager>)
        ensures
            match r {
                Some(m) => self.manager() == Some(*m),
                None => self.manager() is None,
            },
    {
        self.manager.as_ref()
    }

    /// Whether there is a manager.
    pub fn has_manager(&self) -> (r: bool)
        ensures
            r == (self.manager() is Some),
    {
        self.manager.is_some()
    }

    /// Whether the tunnel was stopped by hand.
    pub fn is_stopped_manually(&self) -> (r: bool)
        ensures
            r == self.stopped_manually(),
    {
        self.stopped_manually
    }

    /// The start command. It clears the manual-stop flag whatever follows.
    /// It is refused without a manager, for a configuration that points at
    /// another port than the hub API's, and where the manager refuses.
    pub fn start_tunnel(&mut self, config_file_exists: bool) -> (r: Result<LaunchPlan, CommandError>)
        ensures
            !final(self).stopped_manually(),
            final(self).manager() == old(self).manager(),
            final(self).was_running() == old(self).was_running(),
            command_view(r) == start_command(old(self).manager(), config_file_exists),
    {
        self.stopped_manually = false;
        match &self.manager {
            None => Err(CommandError::TunnelNotConfigured),
            Some(m) => {
                let mismatch: Option<u16> = match m.get_config() {
                    Some(c) => if c.local_port != HUB_API_PORT {
                        Some(c.local_port)
                    } else {
                        None
                    },
                    None => None,
                };
                match mismatch {
                    Some(p) => Err(CommandError::PortMismatch { configured: p }),
                    None => match m.start_tunnel(config_file_exists) {
                        Ok(p) => Ok(p),
                        Err(e) => Err(CommandError::Tunnel(e)),
                    },
                }
            },
        }
    }

    /// The start at launch and the restart by the watchdog. It clears the
    /// manual-stop flag like every start, and is refused without a manager
    /// and where the manager refuses.
    pub fn restart_tunnel(&mut self, config_file_exists: bool) -> (r: Result<LaunchPlan, CommandError>)
        ensures
            !final(self).stopped_manually(),
            final(self).manager() == old(self).manager(),
            final(self).was_running() == old(self).was_running(),
            command_view(r) == automatic_start(old(self).manager(), config_file_exists),
    {
        self.stopped_manually = false;
        match &self.manager {
            None => Err(CommandError::TunnelNotConfigured),
            Some(m) => match m.start_tunnel(config_file_exists) {
                Ok(p) => Ok(p),
                Err(e) => Err(CommandError::Tunnel(e)),
            },
        }
    }

    /// The quick-start command. It clears the manual-stop flag whatever
    /// follows, and is refused without a manager or where a child is tracked.
    pub fn start_quick_tunnel(&mut self, local_port: u16) -> (r: Result<LaunchPlan, CommandError>)
        ensures
            !final(self).stopped_manually(),
            final(self).manager() == old(self).manager(),
            final(self).was_running() == old(self).was_running(),
            command_view(r) == match old(self).manager() {
                None => Err::<LaunchPlanView, CommandError>(CommandError::TunnelNotConfigured),
                Some(m) => if m.running() {
                    Err(CommandError::Tunnel(TunnelError::AlreadyRunning))
                } else {
                    Ok(LaunchPlanView::Quick { local_url: local_url_text(local_port) })
                },
            },
    {
        self.stopped_manually = false;
        match &self.manager {
            None => Err(CommandError::TunnelNotConfigured),
            Some(m) => match m.start_quick_tunnel(local_port) {
                Ok(p) => Ok(p),
                Err(e) => Err(CommandError::Tunnel(e)),
            },
        }
    }

    /// Records that the child process was spawned (see
    /// [`TunnelManager::tunnel_started`]). Without a manager nothing changes.
    pub fn tunnel_started(&mut self, new_hostname: Option<&str>)
        ensures
            final(self).stopped_manually() == old(self).stopped_manually(),
            final(self).was_running() == old(self).was_running(),
            old(self).manager() is None ==> final(self).manager() is None,
            old(self).manager() is Some ==> {
                &&& final(self).manager() is Some
                &&& final(self).running()
                &&& final(self).manager()->Some_0.config() == config_after_start(
                    old(self).manager()->Some_0.config(),
                    match new_hostname {
                        Some(h) => Some(h@),
                        None => None,
                    },
                )
                &&& final(self).manager()->Some_0.install_path_view() == old(
                    self,
                ).manager()->Some_0.install_path_view()
            },
    {
        let m = self.manager.take();
        match m {
            Some(mut m) => {
                m.tunnel_started(new_hostname);
                self.manager = Some(m);
            },
            None => {},
        }
    }

    /// Records how the start of the configured quick tunnel went (see
    /// [`TunnelManager::quick_scan_finished`]). Where no URL was announced
    /// the start has failed and nothing changes; the caller kills the child.
    /// Without a manager nothing changes either.
    pub fn quick_scan_finished(&mut self, scan: &UrlScan) -> (r: Result<(), TunnelError>)
        ensures
            final(self).stopped_manually() == old(self).stopped_manually(),
            final(self).was_running() == old(self).was_running(),
            (final(self).manager() is Some) == (old(self).manager() is Some),
            match quick_start_view(*scan) {
                Ok(h) => r is Ok && (old(self).manager() is Some ==> {
                    &&& final(self).running()
                    &&& final(self).manager()->Some_0.config() == config_after_start(
                        old(self).manager()->Some_0.config(),
                        Some(h),
                    )
                    &&& final(self).manager()->Some_0.install_path_view() == old(
                        self,
                    ).manager()->Some_0.install_path_view()
                }),
                Err(e) => r == Err::<(), TunnelError>(e) && final(self).manager() == old(self).manager(),
            },
    {
        let m = self.manager.take();
        match m {
            Some(mut m) => {
                let r = m.quick_scan_finished(scan);
                self.manager = Some(m);
                r
            },
            None => match quick_start_outcome(scan) {
                Ok(_) => Ok(()),
                Err(e) => Err(e),
            },
        }
    }

    /// The stop command. It sets the manual-stop flag whatever follows, so
    /// that the watchdog leaves the tunnel alone. Returns whether a child
    /// has to be killed; refused without a manager.
    pub fn stop_tunnel(&mut self) -> (r: Result<bool, CommandError>)
        ensures
            final(self).stopped_manually(),
            final(self).was_running() == old(self).was_running(),
            !final(self).running(),
            (final(self).manager() is Some) == (old(self).manager() is Some),
            old(self).manager() is Some ==> final(self).manager()->Some_0.config() == old(
                self,
            ).manager()->Some_0.config() && final(self).manager()->Some_0.install_path_view() == old(
                self,
            ).manager()->Some_0.install_path_view(),
            r == match old(self).manager() {
                None => Err::<bool, CommandError>(CommandError::TunnelNotConfigured),
                Some(m) => Ok(m.running()),
            },
    {
        self.stopped_manually = true;
        let m = self.manager.take();
        match m {
            Some(mut m) => {
                let kill = m.stop_tunnel();
                self.manager = Some(m);
                Ok(kill)
            },
            None => Err(CommandError::TunnelNotConfigured),
        }
    }

    /// The status query. Without a manager nothing is configured and
    /// nothing runs.
    pub fn get_status(&mut self, poll: ChildPoll) -> (s: TunnelStatus)
        ensures
            s.running == (old(self).running() && poll == ChildPoll::Alive),
            s.configured == old(self).configured(),
            s.error is None,
            config_view(s.config) == match old(self).manager() {
                Some(m) => m.config(),
                None => None,
            },
            final(self).running() == s.running,
            (final(self).manager() is Some) == (old(self).manager() is Some),
            old(self).manager() is Some ==> final(self).manager()->Some_0.config() == old(
                self,
            ).manager()->Some_0.config() && final(self).manager()->Some_0.install_path_view() == old(
                self,
            ).manager()->Some_0.install_path_view(),
            final(self).stopped_manually() == old(self).stopped_manually(),
            final(self).was_running() == old(self).was_running(),
    {
        let m = self.manager.take();
        match m {
            Some(mut m) => {
                let s = m.get_status(poll);
                self.manager = Some(m);
                s
            },
            None => TunnelStatus { configured: false, running: false, config: None, error: None },
        }
    }

    /// One tick of the watchdog, with what polling the child showed. Returns
    /// whether the tunnel has to be started again; the caller then starts it
    /// and reports with [`Supervisor::watchdog_restarted`].
    pub fn watchdog(&mut self, poll: ChildPoll) -> (restart: bool)
        ensures
            final(self).stopped_manually() == old(self).stopped_manually(),
            (final(self).manager() is Some) == (old(self).manager() is Some),
            old(self).manager() is Some ==> final(self).manager()->Some_0.config() == old(
                self,
            ).manager()->Some_0.config() && final(self).manager()->Some_0.install_path_view() == old(
                self,
            ).manager()->Some_0.install_path_view(),
            !old(self).stopped_manually() ==> final(self).running() == (old(self).running() && poll
                == ChildPoll::Alive),
            old(self).stopped_manually() ==> final(self).manager() == old(self).manager(),
            (WatchdogDecision { was_running: final(self).was_running(), restart }) == watchdog_rule(
                old(self).was_running(),
                old(self).stopped_manually(),
                old(self).running() && poll == ChildPoll::Alive,
                old(self).configured(),
            ),
    {
        if self.stopped_manually {
            self.was_running = false;
            return false;
        }
        let status = self.get_status(poll);
        let d = watchdog_tick(self.was_running, false, status.running, status.configured);
        self.was_running = d.was_running;
        d.restart
    }

    /// Records how the restart that the watchdog asked for went: a tunnel
    /// that came up counts as seen running.
    pub fn watchdog_restarted(&mut self, started: bool)
        ensures
            final(self).was_running() == started,
            final(self).stopped_manually() == old(self).stopped_manually(),
            final(self).manager() == old(self).manager(),
    {
        self.was_running = started;
    }
}

// ---------------------------------------------------------------------------
// Provisioning a named tunnel
// ---------------------------------------------------------------------------

/// The zone of a host name: its last two labels. A host name without a dot
/// has none.
pub open spec fn zone_of(hostname: Seq<char>) -> Option<Seq<char>> {
    if !hostname.contains('.') {
        None
    } else {
        let last = after_last(hostname, '.');
        let rest = hostname.take(hostname.len() - last.len() - 1);
        Some(after_last(rest, '.') + seq!['.'] + last)
    }
}

/// The zone of a host name, under which its DNS record is made.
pub fn zone_name(hostname: &str) -> (r: Option<String>)
    ensures
        opt_text(r) == zone_of(hostname@),
{
    let h = to_chars(hostname);
    let last = after_last_chars(&h, '.');
    proof {
        crate::text::lemma_trailing_run_props(h@, crate::text::is_not_char('.'));
    }
    if last.len() == h.len() {
        proof {
            assert forall|i: int| 0 <= i < h@.len() implies h@[i] != '.' by {}
        }
        return None;
    }
    proof {
        assert(h@[h@.len() - last@.len() - 1] == '.');
    }
    let rest = slice_chars(&h, 0, h.len() - last.len() - 1);
    let mut zone = after_last_chars(&rest, '.');
    zone.push('.');
    push_chars(&mut zone, &last);
    assert(zone@ =~= after_last(rest@, '.') + seq!['.'] + last@);
    Some(string_from_chars(&zone))
}

/// The target of the DNS record of the tunnel `tunnel_id`.
pub fn tunnel_cname(tunnel_id: &str) -> (r: String)
    ensures
        r@ == tunnel_id@ + ".cfargotunnel.com"@,
{
    let mut r = String::from_str(tunnel_id);
    r.append(".cfargotunnel.com");
    r
}

/// The account under which a tunnel is made: the first that the provider
/// lists. Refused where the provider reports no success or lists none.
pub fn pick_account(success: bool, account_ids: &Vec<String>) -> (r: Result<String, TunnelError>)
    ensures
        match r {
            Ok(id) => success && account_ids@.len() > 0 && id == account_ids@[0],
            Err(e) => e == TunnelError::NoAccount && (!success || account_ids@.len() == 0),
        },
{
    if !success || account_ids.len() == 0 {
        Err(TunnelError::NoAccount)
    } else {
        Ok(account_ids[0].clone())
    }
}

/// The zone in which the DNS record is made: the first that the provider
/// lists. `None` where the provider reports no success or lists none; the
/// record is then not made.
pub fn pick_zone(success: bool, zone_ids: &Vec<String>) -> (r: Option<String>)
    ensures
        match r {
            Some(id) => success && zone_ids@.len() > 0 && id == zone_ids@[0],
            None => !success || zone_ids@.len() == 0,
        },
{
    if !success || zone_ids.len() == 0 {
        None
    } else {
        Some(zone_ids[0].clone())
    }
}

/// Whether the provider made the DNS record: only where its answer says so.
pub fn record_accepted(success: Option<bool>) -> (r: bool)
    ensures
        r == (success == Some(true)),
{
    match success {
        Some(true) => true,
        _ => false,
    }
}

/// The text of `bytes` in base64, with the standard alphabet and padding.
pub uninterp spec fn base64_standard(bytes: Seq<u8>) -> Seq<char>;

/// Calls `encode` of `base64::engine::general_purpose::STANDARD`. The
/// contract only names the result, which depends on the bytes alone.
#[verifier::external_body]
fn base64_encode(bytes: &Vec<u8>) -> (r: String)
    ensures
        r@ == base64_standard(bytes@),
{
    base64::Engine::encode(&base64::engine::general_purpose::STANDARD, bytes)
}

/// A secret that a tunnel made for a node has: the base64 text of sixteen
/// bytes.
pub open spec fn is_tunnel_secret(s: Seq<char>) -> bool {
    exists|bytes: Seq<u8>| bytes.len() == 16 && s == #[trigger] base64_standard(bytes)
}

/// A new secret for a tunnel that is about to be made: the sixteen bytes of
/// a fresh random identifier, in base64.
pub fn new_tunnel_secret() -> (r: String)
    ensures
        is_tunnel_secret(r@),
{
    let bytes = new_uuid_bytes();
    base64_encode(&bytes)
}

/// A tunnel that the provider has made.
#[derive(Debug)]
pub struct ProvisionedTunnel {
    pub tunnel_id: String,
    /// Empty where the provider gave none.
    pub tunnel_token: String,
}

/// The tunnel that the provider's answer describes. Refused where the
/// provider reports no success.
pub fn created_tunnel(success: bool, tunnel_id: String, token: Option<String>) -> (r: Result<
    ProvisionedTunnel,
    TunnelError,
>)
    ensures
        match r {
            Ok(t) => success && t.tunnel_id == tunnel_id && t.tunnel_token@ == match token {
                Some(x) => x@,
                None => Seq::<char>::empty(),
            },
            Err(e) => e == TunnelError::TunnelRejected && !success,
        },
{
    if !success {
        Err(TunnelError::TunnelRejected)
    } else {
        let tunnel_token = match token {
            Some(x) => x,
            None => String::new(),
        };
        Ok(ProvisionedTunnel { tunnel_id, tunnel_token })
    }
}

/// Whether the provider accepted the ingress rules: only where its answer
/// says so.
pub fn ingress_accepted(success: Option<bool>) -> (r: Result<(), TunnelError>)
    ensures
        r == if success == Some(true) {
            Ok::<(), TunnelError>(())
        } else {
            Err(TunnelError::IngressRejected)
        },
{
    match success {
        Some(true) => Ok(()),
        _ => Err(TunnelError::IngressRejected),
    }
}

} // verus!
