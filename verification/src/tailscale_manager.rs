//! The mesh-network client's command line: what its answers mean. Running
//! the commands is the caller's business.

use vstd::prelude::*;
use vstd::string::*;
use crate::text::{before_first, before_first_chars, contains, contains_text, find, find_text, first_word_from, first_word_marked, letters, letters_of, mark_spaces, marked_space, opt_text, str_eq, string_from_chars, to_chars, trim_end_char, trim_end_char_chars};

verus! {

/// Where the client is installed on Windows.
pub open spec fn windows_path() -> Seq<char> {
    "C:\\Program Files\\Tailscale\\tailscale.exe"@
}

/// The state of the client.
#[derive(Debug)]
pub struct TailscaleStatus {
    pub installed: bool,
    pub logged_in: bool,
    pub machine_name: Option<String>,
    /// `https://` and the machine's DNS name.
    pub funnel_url: Option<String>,
    pub funnel_active: bool,
}

/// What the probes of the client showed.
#[derive(Debug)]
pub struct TailscaleProbe {
    /// Whether the client is installed.
    pub installed: bool,
    /// `BackendState` of the status, where the status could be read.
    pub backend_state: Option<String>,
    /// `Self.DNSName` of the status, where the status could be read.
    pub dns_name: Option<String>,
    /// What `funnel status` printed, where it could be run.
    pub funnel_listing: Option<String>,
}

/// Whether the backend state says that the client is logged in.
pub open spec fn backend_running(state: Option<Seq<char>>) -> bool {
    state == Some("Running"@)
}

/// Whether a funnel listing shows an active funnel: it then holds a port
/// mapping.
pub open spec fn listing_active(text: Seq<char>) -> bool {
    contains_text(text, ":443"@) || contains_text(text, "http://127.0.0.1"@) || contains_text(
        text,
        "https://localhost"@,
    ) || contains_text(text, "http://localhost"@)
}

/// The status that the probes add up to. The DNS name loses the dots at
/// its end; its first label is the machine's name; the funnel's URL is
/// known only while logged in.
pub open spec fn status_of(
    installed: bool,
    backend_state: Option<Seq<char>>,
    dns_name: Option<Seq<char>>,
    funnel_listing: Option<Seq<char>>,
) -> (bool, bool, Option<Seq<char>>, Option<Seq<char>>, bool) {
    if !installed {
        (false, false, None, None, false)
    } else {
        let logged_in = backend_running(backend_state);
        let dns = match dns_name {
            Some(d) => Some(trim_end_char(d, '.')),
            None => None,
        };
        let funnel_url = match dns {
            Some(d) => if logged_in {
                Some("https://"@ + d)
            } else {
                None
            },
            None => None,
        };
        let machine_name = match dns {
            Some(d) => Some(before_first(d, '.')),
            None => None,
        };
        let funnel_active = logged_in && match funnel_listing {
            Some(t) => listing_active(t),
            None => false,
        };
        (true, logged_in, machine_name, funnel_url, funnel_active)
    }
}

/// The login URL in marked text: from `https://login.tailscale.com` to the
/// next white space, without dots at the end.
pub open spec fn login_url_marked(line: Seq<(char, bool)>) -> Option<Seq<char>> {
    match find_text(letters(line), "https://login.tailscale.com"@) {
        None => None,
        Some(pos) => {
            let url = trim_end_char(first_word_marked(line.skip(pos)), '.');
            if url.len() > 0 {
                Some(url)
            } else {
                None
            }
        },
    }
}

/// The login URL in a line of the client's output (see
/// [`login_url_marked`]).
pub open spec fn login_url_in(line: Seq<char>) -> Option<Seq<char>> {
    login_url_marked(marked_space(line))
}

/// What a login has to do first, given the client's state.
#[derive(Debug)]
pub enum LoginStart {
    /// An authentication URL is waiting: open it.
    OpenUrl(String),
    /// The client is logged in already.
    AlreadyLoggedIn,
    /// Start the login and watch for the URL.
    Proceed,
}

/// What the watcher of the client's state does next.
#[derive(Debug)]
pub enum PollStep {
    /// Give up: the time is over.
    GiveUp,
    /// Stop: the client is logged in.
    LoggedIn,
    /// Report this authentication URL and stop.
    Found(String),
    /// Look again.
    Again,
}

/// The front end of the mesh-network client.
#[derive(Debug)]
pub struct TailscaleManager {}

impl TailscaleManager {
    /// The front end; it holds no state.
    pub fn new() -> (m: Self) {
        TailscaleManager {  }
    }

    /// The command to run: the binary at its well-known place on Windows
    /// where it exists, else whatever the search path finds.
    pub fn cmd(&self, windows_binary_exists: bool) -> (r: String)
        ensures
            r@ == if windows_binary_exists {
                windows_path()
            } else {
                "tailscale"@
            },
    {
        if windows_binary_exists {
            String::from_str("C:\\Program Files\\Tailscale\\tailscale.exe")
        } else {
            String::from_str("tailscale")
        }
    }

    /// Whether the client is installed: its binary exists at the well-known
    /// place, or `version` ran from the search path and succeeded.
    pub fn is_installed(&self, windows_binary_exists: bool, version_succeeded: Option<bool>) -> (r: bool)
        ensures
            r == (windows_binary_exists || version_succeeded == Some(true)),
    {
        if windows_binary_exists {
            return true;
        }
        match version_succeeded {
            Some(ok) => ok,
            None => false,
        }
    }

    /// Whether a funnel listing shows an active funnel; `None` where the
    /// listing could not be had.
    pub fn is_funnel_active(&self, listing: Option<&str>) -> (r: bool)
        ensures
            r == match listing {
                Some(t) => listing_active(t@),
                None => false,
            },
    {
        match listing {
            None => false,
            Some(t) => {
                let text = to_chars(t);
                let a = to_chars(":443");
                let b = to_chars("http://127.0.0.1");
                let c = to_chars("https://localhost");
                let d = to_chars("http://localhost");
                contains(&text, &a) || contains(&text, &b) || contains(&text, &c) || contains(
                    &text,
                    &d,
                )
            },
        }
    }

    /// The status that the probes add up to.
    pub fn get_status(&self, probe: &TailscaleProbe) -> (s: TailscaleStatus)
        ensures
            (s.installed, s.logged_in, opt_text(s.machine_name), opt_text(s.funnel_url), s.funnel_active)
                == status_of(
                probe.installed,
                opt_text(probe.backend_state),
                opt_text(probe.dns_name),
                opt_text(probe.funnel_listing),
            ),
    {
        if !probe.installed {
            return TailscaleStatus {
                installed: false,
                logged_in: false,
                machine_name: None,
                funnel_url: None,
                funnel_active: false,
            };
        }
        let logged_in = match &probe.backend_state {
            Some(s) => str_eq(s.as_str(), "Running"),
            None => false,
        };
        let (machine_name, funnel_url) = match &probe.dns_name {
            None => (None, None),
            Some(d) => {
                let raw = to_chars(d.as_str());
                let dns = trim_end_char_chars(&raw, '.');
                let label = before_first_chars(&dns, '.');
                let url = if logged_in {
                    let mut u = String::from_str("https://");
                    let name = string_from_chars(&dns);
                    u.append(name.as_str());
                    Some(u)
                } else {
                    None
                };
                (Some(string_from_chars(&label)), url)
            },
        };
        let funnel_active = logged_in && match &probe.funnel_listing {
            Some(t) => self.is_funnel_active(Some(t.as_str())),
            None => false,
        };
        TailscaleStatus { installed: true, logged_in, machine_name, funnel_url, funnel_active }
    }

    /// Whether the client is logged in, by the backend state of its status.
    pub fn poll_login(&self, backend_state: Option<&str>) -> (r: bool)
        ensures
            r == match backend_state {
                Some(s) => s@ == "Running"@,
                None => false,
            },
    {
        match backend_state {
            Some(s) => str_eq(s, "Running"),
            None => false,
        }
    }

    /// The authentication URL of a status, where it has one that is not
    /// empty.
    pub fn extract_auth_url(auth_url: Option<&str>) -> (r: Option<String>)
        ensures
            opt_text(r) == match auth_url {
                Some(u) => if u@.len() > 0 {
                    Some(u@)
                } else {
                    None
                },
                None => None,
            },
    {
        match auth_url {
            Some(u) => if u.unicode_len() > 0 {
                Some(String::from_str(u))
            } else {
                None
            },
            None => None,
        }
    }

    /// Looks for a login URL in a line whose white space is marked.
    pub fn find_url_in_marked(line: &Vec<(char, bool)>) -> (r: Option<String>)
        ensures
            opt_text(r) == login_url_marked(line@),
    {
        let l = letters_of(line);
        let pat = to_chars("https://login.tailscale.com");
        match find(&l, &pat) {
            None => None,
            Some(pos) => {
                let word = first_word_from(line, pos);
                let url = trim_end_char_chars(&word, '.');
                if url.len() > 0 {
                    Some(string_from_chars(&url))
                } else {
                    None
                }
            },
        }
    }

    /// Looks for a login URL in a line of the client's output.
    pub fn find_url_in_line(line: &str) -> (r: Option<String>)
        ensures
            opt_text(r) == login_url_in(line@),
    {
        let l = to_chars(line);
        let marked = mark_spaces(&l);
        Self::find_url_in_marked(&marked)
    }

    /// What a login has to do first. `status` is the backend state and the
    /// authentication URL of the client's status, `None` where the status
    /// could not be read.
    pub fn start_login(&self, status: Option<(Option<&str>, Option<&str>)>) -> (r: LoginStart)
        ensures
            match status {
                None => r is Proceed,
                Some((state, auth_url)) => match auth_url {
                    Some(u) if u@.len() > 0 => r matches LoginStart::OpenUrl(x) && x@ == u@,
                    _ => if state is Some && state->Some_0@ == "Running"@ {
                        r is AlreadyLoggedIn
                    } else {
                        r is Proceed
                    },
                },
            },
    {
        match status {
            None => LoginStart::Proceed,
            Some((state, auth_url)) => {
                match Self::extract_auth_url(auth_url) {
                    Some(u) => LoginStart::OpenUrl(u),
                    None => {
                        let running = match state {
                            Some(s) => str_eq(s, "Running"),
                            None => false,
                        };
                        if running {
                            LoginStart::AlreadyLoggedIn
                        } else {
                            LoginStart::Proceed
                        }
                    },
                }
            },
        }
    }

    /// How long the watcher sleeps before it looks at the status: a tenth
    /// of a second during the first five seconds, a second after that.
    pub fn poll_pause_ms(elapsed_ms: u64) -> (r: u64)
        ensures
            r == if elapsed_ms < 5000 {
                100u64
            } else {
                1000u64
            },
    {
        if elapsed_ms < 5000 {
            100
        } else {
            1000
        }
    }

    /// One look of the watcher at the client's status, `elapsed_ms` after
    /// the login began: it gives up after a minute, stops when the client
    /// is logged in, and reports the authentication URL as soon as there is
    /// one.
    pub fn poll_status(elapsed_ms: u64, state: Option<&str>, auth_url: Option<&str>) -> (r: PollStep)
        ensures
            if elapsed_ms > 60000 {
                r is GiveUp
            } else if state is Some && state->Some_0@ == "Running"@ {
                r is LoggedIn
            } else if auth_url is Some && auth_url->Some_0@.len() > 0 {
                r matches PollStep::Found(u) && u@ == auth_url->Some_0@
            } else {
                r is Again
            },
    {
        if elapsed_ms > 60000 {
            return PollStep::GiveUp;
        }
        let running = match state {
            Some(s) => str_eq(s, "Running"),
            None => false,
        };
        if running {
            return PollStep::LoggedIn;
        }
        match Self::extract_auth_url(auth_url) {
            Some(u) => PollStep::Found(u),
            None => PollStep::Again,
        }
    }

    /// The URL that enabling the funnel answers with, or why it failed.
    /// `failure` is what the command printed where it failed.
    pub fn enable_funnel(&self, failure: Option<(&str, &str)>, status: &TailscaleStatus) -> (r: Result<String, String>)
        ensures
            match failure {
                Some((stderr, stdout)) => r is Err && r->Err_0@ == "tailscale funnel failed: "@
                    + stderr@ + " "@ + stdout@,
                None => match status.funnel_url {
                    Some(u) => r is Ok && r->Ok_0@ == u@,
                    None => r is Err && r->Err_0@
                        == "Funnel started but URL not available \u{2014} ensure Tailscale is logged in and your tailnet name is configured"@,
                },
            },
    {
        match failure {
            Some((stderr, stdout)) => {
                let mut m = String::from_str("tailscale funnel failed: ");
                m.append(stderr);
                m.append(" ");
                m.append(stdout);
                Err(m)
            },
            None => match &status.funnel_url {
                Some(u) => Ok(u.clone()),
                None => Err(
                    String::from_str(
                        "Funnel started but URL not available \u{2014} ensure Tailscale is logged in and your tailnet name is configured",
                    ),
                ),
            },
        }
    }

    /// Whether disabling the funnel went well. `failure` is what the
    /// command printed on its error stream where it failed.
    pub fn disable_funnel(&self, failure: Option<&str>) -> (r: Result<(), String>)
        ensures
            match failure {
                Some(stderr) => r is Err && r->Err_0@ == "tailscale funnel off failed: "@ + stderr@,
                None => r is Ok,
            },
    {
        match failure {
            Some(stderr) => {
                let mut m = String::from_str("tailscale funnel off failed: ");
                m.append(stderr);
                Err(m)
            },
            None => Ok(()),
        }
    }
}

} // verus!
