//! The decisions of the desktop commands that are neither the store's nor
//! the tunnel's: the hub's slug and its entry in the registry, and the
//! checks on installation paths.

use vstd::prelude::*;
use vstd::string::*;
use crate::text::{
    char_is_alphanumeric, contains, contains_text, is_char, lemma_trailing_run_props, matches_at,
    occurs_at, str_to_lowercase, string_from_chars, to_chars, trailing_run, trim_end_char,
    trim_end_char_chars, unicode_alphanumeric, unicode_lowercase,
};
use crate::storage_manager::{NodeStatus, StorageManager};
use crate::tunnel_manager::TunnelStatus;

verus! {

/// The most characters of a slug.
pub const SLUG_MAX: usize = 63;

/// The greeting for `name`.
pub fn greet(name: &str) -> (r: String)
    ensures
        r@ == "Welcome to Citinet, "@ + name@ + "!"@,
{
    let mut r = String::from_str("Welcome to Citinet, ");
    r.append(name);
    r.append("!");
    r
}

/// The kept characters of `s`, each run of other characters between them
/// as one hyphen; with it, whether a hyphen was written last. Each
/// character comes with the word whether it is kept.
pub open spec fn slug_fold(s: Seq<(char, bool)>) -> (Seq<char>, bool)
    decreases s.len(),
{
    if s.len() == 0 {
        (Seq::empty(), false)
    } else {
        let (r, dash) = slug_fold(s.drop_last());
        let (c, kept) = s.last();
        if kept {
            (r.push(c), false)
        } else if !dash && r.len() > 0 {
            (r.push('-'), true)
        } else {
            (r, dash)
        }
    }
}

/// The slug of marked characters: the kept ones, everything else between
/// them turned into single hyphens, no hyphen at the end, and of that the
/// first sixty-three characters.
pub open spec fn slug_of_marked(s: Seq<(char, bool)>) -> Seq<char> {
    let t = trim_end_char(slug_fold(s).0, '-');
    if t.len() <= SLUG_MAX {
        t
    } else {
        t.take(SLUG_MAX as int)
    }
}

/// Each character of `s` with the word whether it is a letter or a digit.
pub open spec fn marked(s: Seq<char>) -> Seq<(char, bool)> {
    Seq::new(s.len(), |i: int| (s[i], unicode_alphanumeric(s[i])))
}

/// The slug of a name: that of its lower-case form, of which the letters
/// and digits are kept.
pub open spec fn slug_of(name: Seq<char>) -> Seq<char> {
    slug_of_marked(marked(unicode_lowercase(name)))
}

/// The slug of marked characters (see [`slug_of_marked`]).
pub fn slug_from_marked(chars: &Vec<(char, bool)>) -> (r: String)
    ensures
        r@ == slug_of_marked(chars@),
{
    let mut result: Vec<char> = Vec::new();
    let mut last_was_dash = false;
    let mut i: usize = 0;
    assert(chars@.take(0) =~= Seq::<(char, bool)>::empty());
    while i < chars.len()
        invariant
            i <= chars.len(),
            (result@, last_was_dash) == slug_fold(chars@.take(i as int)),
        decreases chars.len() - i,
    {
        proof {
            assert(chars@.take(i + 1).drop_last() =~= chars@.take(i as int));
            assert(chars@.take(i + 1).last() == chars@[i as int]);
        }
        let (c, kept) = chars[i];
        if kept {
            result.push(c);
            last_was_dash = false;
        } else if !last_was_dash && result.len() > 0 {
            result.push('-');
            last_was_dash = true;
        }
        i += 1;
    }
    assert(chars@.take(chars.len() as int) =~= chars@);
    let mut trimmed = trim_end_char_chars(&result, '-');
    if trimmed.len() > SLUG_MAX {
        trimmed.truncate(SLUG_MAX);
    }
    string_from_chars(&trimmed)
}

/// The slug of a name (see [`slug_of`]).
pub fn make_slug(name: &str) -> (r: String)
    ensures
        r@ == slug_of(name@),
{
    let lower = str_to_lowercase(name);
    let chars = to_chars(lower.as_str());
    let mut with_marks: Vec<(char, bool)> = Vec::new();
    let mut i: usize = 0;
    while i < chars.len()
        invariant
            i <= chars.len(),
            with_marks@.len() == i,
            forall|j: int| 0 <= j < i ==> with_marks@[j] == (chars@[j], unicode_alphanumeric(chars@[j])),
        decreases chars.len() - i,
    {
        let c = chars[i];
        with_marks.push((c, char_is_alphanumeric(c)));
        i += 1;
    }
    assert(with_marks@ =~= marked(chars@));
    slug_from_marked(&with_marks)
}

/// What the fold writes: no more characters than it read; a hyphen last
/// exactly where it says so; no hyphen first and no two hyphens in a row,
/// provided that no kept character is a hyphen; and nothing but hyphens and
/// kept characters.
pub proof fn lemma_slug_fold_shape(s: Seq<(char, bool)>)
    requires
        forall|i: int| 0 <= i < s.len() ==> !(#[trigger] s[i] == ('-', true)),
    ensures
        slug_fold(s).0.len() <= s.len(),
        slug_fold(s).1 == (slug_fold(s).0.len() > 0 && slug_fold(s).0.last() == '-'),
        slug_fold(s).0.len() > 0 ==> slug_fold(s).0[0] != '-',
        forall|i: int|
            0 <= i && i + 1 < slug_fold(s).0.len() ==> !(#[trigger] slug_fold(s).0[i] == '-' && slug_fold(s).0[i + 1]
                == '-'),
        forall|i: int|
            0 <= i < slug_fold(s).0.len() ==> #[trigger] slug_fold(s).0[i] == '-' || s.contains(
                (slug_fold(s).0[i], true),
            ),
    decreases s.len(),
{
    if s.len() > 0 {
        let t = s.drop_last();
        assert forall|i: int| 0 <= i < t.len() implies !(#[trigger] t[i] == ('-', true)) by {
            assert(t[i] == s[i]);
        }
        lemma_slug_fold_shape(t);
        let (r, dash) = slug_fold(t);
        let (c, kept) = s.last();
        let out = slug_fold(s).0;
        assert(s[s.len() - 1] == s.last());
        assert forall|i: int| 0 <= i < out.len() implies #[trigger] out[i] == '-' || s.contains((out[i], true)) by {
            if i < r.len() {
                assert(out[i] == r[i]);
                if r[i] != '-' {
                    let j = choose|j: int| 0 <= j < t.len() && t[j] == (r[i], true);
                    assert(s[j] == t[j]);
                }
            } else if kept {
                assert(s[s.len() - 1] == (out[i], true));
            }
        }
        assert forall|i: int| 0 <= i && i + 1 < out.len() implies !(#[trigger] out[i] == '-' && out[i + 1]
            == '-') by {
            if i + 1 < r.len() {
                assert(out[i] == r[i] && out[i + 1] == r[i + 1]);
            } else if out.len() > r.len() {
                assert(out[i] == r[i]);
                assert(r[i] == r.last());
            }
        }
        if r.len() > 0 {
            assert(out[0] == r[0]);
        }
    }
}

/// A slug has at most sixty-three characters, and holds nothing but hyphens
/// and kept characters. Where no kept character is a hyphen, it does not
/// begin with a hyphen and has no two hyphens in a row; and where it was
/// not cut short, it does not end with one.
pub proof fn lemma_slug_shape(s: Seq<(char, bool)>)
    requires
        forall|i: int| 0 <= i < s.len() ==> !(#[trigger] s[i] == ('-', true)),
    ensures
        slug_of_marked(s).len() <= SLUG_MAX,
        slug_of_marked(s).len() > 0 ==> slug_of_marked(s)[0] != '-',
        forall|i: int|
            0 <= i && i + 1 < slug_of_marked(s).len() ==> !(#[trigger] slug_of_marked(s)[i] == '-' && slug_of_marked(
                s,
            )[i + 1] == '-'),
        forall|i: int|
            0 <= i < slug_of_marked(s).len() ==> #[trigger] slug_of_marked(s)[i] == '-' || s.contains(
                (slug_of_marked(s)[i], true),
            ),
        trim_end_char(slug_fold(s).0, '-').len() <= SLUG_MAX && slug_of_marked(s).len() > 0 ==> slug_of_marked(
            s,
        ).last() != '-',
{
    lemma_slug_fold_shape(s);
    let r = slug_fold(s).0;
    lemma_trailing_run_props(r, is_char('-'));
    let t = trim_end_char(r, '-');
    let out = slug_of_marked(s);
    assert forall|i: int| 0 <= i < out.len() implies out[i] == r[i] by {
        assert(out[i] == t[i]);
    }
    assert forall|i: int| 0 <= i < out.len() implies #[trigger] out[i] == '-' || s.contains((out[i], true)) by {
        assert(out[i] == r[i]);
    }
    assert forall|i: int| 0 <= i && i + 1 < out.len() implies !(#[trigger] out[i] == '-' && out[i + 1] == '-') by {
        assert(out[i] == r[i] && out[i + 1] == r[i + 1]);
    }
    if t.len() <= SLUG_MAX && out.len() > 0 {
        assert(out =~= t);
        assert(t.len() < r.len() ==> !is_char('-')(r[t.len() - 1]));
        if t.len() == r.len() {
            assert(trailing_run(r, is_char('-')) == 0);
            assert(!is_char('-')(r.last()));
        }
        assert(out.last() == r[t.len() - 1]);
    }
}

/// The public URL of a hub whose tunnel has the host name `hostname`: the
/// host name itself where it begins with `http`, else with `https://`
/// before it.
pub open spec fn hub_url_text(hostname: Seq<char>) -> Seq<char> {
    if occurs_at(hostname, "http"@, 0) {
        hostname
    } else {
        "https://"@ + hostname
    }
}

/// The public URL of a hub whose tunnel has the host name `hostname`.
pub fn hub_url(hostname: &str) -> (r: String)
    ensures
        r@ == hub_url_text(hostname@),
{
    let h = to_chars(hostname);
    let p = to_chars("http");
    if matches_at(&h, &p, 0) {
        String::from_str(hostname)
    } else {
        let mut r = String::from_str("https://");
        r.append(hostname);
        r
    }
}

/// What is sent to the registry for a hub.
#[derive(Debug)]
pub struct HubRegistration {
    pub id: String,
    pub name: String,
    pub slug: String,
    pub tunnel_url: String,
}

/// Why a hub cannot be entered into the registry.
#[derive(Debug, Clone, Copy, PartialEq, Eq, Structural)]
pub enum RegistryError {
    /// This build has no registry secret.
    NoSecret,
    /// The node is not initialized.
    NotInitialized,
    /// The node has no configuration.
    NodeNotConfigured,
    /// There is no tunnel manager.
    TunnelNotInitialized,
    /// The tunnel has no configuration.
    TunnelNotConfigured,
}

impl RegistryError {
    /// The message shown to the user.
    pub fn message(&self) -> (r: String)
        ensures
            r@ == match *self {
                RegistryError::NoSecret => "Registry not configured in this build (REGISTRY_SECRET not set)"@,
                RegistryError::NotInitialized => "Node not initialized"@,
                RegistryError::NodeNotConfigured => "Node not configured"@,
                RegistryError::TunnelNotInitialized => "Tunnel not initialized"@,
                RegistryError::TunnelNotConfigured => "Tunnel not configured \u{2014} set up public access first"@,
            },
    {
        match self {
            RegistryError::NoSecret => String::from_str(
                "Registry not configured in this build (REGISTRY_SECRET not set)",
            ),
            RegistryError::NotInitialized => String::from_str("Node not initialized"),
            RegistryError::NodeNotConfigured => String::from_str("Node not configured"),
            RegistryError::TunnelNotInitialized => String::from_str("Tunnel not initialized"),
            RegistryError::TunnelNotConfigured => String::from_str(
                "Tunnel not configured \u{2014} set up public access first",
            ),
        }
    }
}

/// The node as the registry needs it.
#[derive(Debug)]
pub struct NodeIdentity {
    pub node_id: String,
    pub node_name: String,
}

/// What entering the hub into the registry sends, or why it cannot be
/// entered. `node` is `None` where the node is not initialized and
/// `Some(None)` where it has no configuration; `tunnel` is `None` where
/// there is no tunnel manager.
pub fn register_hub(has_secret: bool, node: Option<Option<NodeIdentity>>, tunnel: Option<&TunnelStatus>) -> (r:
    Result<HubRegistration, RegistryError>)
    ensures
        match r {
            Err(e) => e == if !has_secret {
                RegistryError::NoSecret
            } else if node is None {
                RegistryError::NotInitialized
            } else if node->Some_0 is None {
                RegistryError::NodeNotConfigured
            } else if tunnel is None {
                RegistryError::TunnelNotInitialized
            } else {
                RegistryError::TunnelNotConfigured
            },
            Ok(reg) => {
                &&& has_secret
                &&& node is Some && node->Some_0 is Some
                &&& tunnel is Some && tunnel->Some_0.configured && tunnel->Some_0.config is Some
                &&& reg.id == node->Some_0->Some_0.node_id
                &&& reg.name == node->Some_0->Some_0.node_name
                &&& reg.slug@ == slug_of(reg.name@)
                &&& reg.tunnel_url@ == hub_url_text(tunnel->Some_0.config->Some_0.hostname@)
            },
        },
        r is Err <==> !has_secret || node is None || node->Some_0 is None || tunnel is None
            || !tunnel->Some_0.configured || tunnel->Some_0.config is None,
{
    if !has_secret {
        return Err(RegistryError::NoSecret);
    }
    let identity = match node {
        None => {
            return Err(RegistryError::NotInitialized);
        },
        Some(None) => {
            return Err(RegistryError::NodeNotConfigured);
        },
        Some(Some(n)) => n,
    };
    let status = match tunnel {
        None => {
            return Err(RegistryError::TunnelNotInitialized);
        },
        Some(s) => s,
    };
    if !status.configured {
        return Err(RegistryError::TunnelNotConfigured);
    }
    let tunnel_url = match &status.config {
        None => {
            return Err(RegistryError::TunnelNotConfigured);
        },
        Some(c) => hub_url(c.hostname.as_str()),
    };
    let slug = make_slug(identity.node_name.as_str());
    Ok(HubRegistration { id: identity.node_id, name: identity.node_name, slug, tunnel_url })
}

/// Whether the registry accepted an entry: any status from 200 to 299.
pub fn registry_accepted(status: u16) -> (r: bool)
    ensures
        r == (200 <= status < 300),
{
    200 <= status && status < 300
}

/// Whether an installation path lies where writing needs the
/// administrator's rights: it mentions `program files`, in any case.
pub open spec fn restricted_path(path: Seq<char>) -> bool {
    contains_text(unicode_lowercase(path), "program files"@)
}

/// Whether an installation path lies where writing needs the
/// administrator's rights.
pub fn is_restricted_path(path: &str) -> (r: bool)
    ensures
        r == restricted_path(path@),
{
    let lower = str_to_lowercase(path);
    let l = to_chars(lower.as_str());
    let p = to_chars("program files");
    contains(&l, &p)
}

/// How creating the directory of an installation path went.
#[derive(Debug)]
pub enum CreateDirOutcome {
    Created,
    PermissionDenied,
    Failed { reason: String },
}

/// Whether an installation path can be used, from how creating its
/// directory went.
pub fn validate_install_path(path: &str, outcome: &CreateDirOutcome) -> (r: Result<bool, String>)
    ensures
        match *outcome {
            CreateDirOutcome::Created => r == Ok::<bool, String>(true),
            CreateDirOutcome::PermissionDenied => r is Err && r->Err_0@
                == "Permission denied: Cannot write to '"@ + path@
                + "'. Please choose a different location or run as administrator."@,
            CreateDirOutcome::Failed { reason } => r is Err && r->Err_0@
                == "Cannot create directory: "@ + reason@,
        },
{
    match outcome {
        CreateDirOutcome::Created => Ok(true),
        CreateDirOutcome::PermissionDenied => {
            let mut m = String::from_str("Permission denied: Cannot write to '");
            m.append(path);
            m.append("'. Please choose a different location or run as administrator.");
            Err(m)
        },
        CreateDirOutcome::Failed { reason } => {
            let mut m = String::from_str("Cannot create directory: ");
            m.append(reason.as_str());
            Err(m)
        },
    }
}

/// What the node reports about itself, with what the caller measured: the
/// bytes and files on disk, the data directory and the time since the
/// start. Nothing until the node is initialized and configured.
pub fn get_node_status(store: Option<&StorageManager>, used_bytes: u64, file_count: u64, data_path: &str, uptime_seconds: u64) -> (r:
    Option<NodeStatus>)
    ensures
        match store {
            Some(sm) => match sm.node() {
                Some(c) => {
                    &&& r is Some
                    &&& r->Some_0.node_id == c.node_id
                    &&& r->Some_0.node_name == c.node_name
                    &&& r->Some_0.node_type == c.node_type
                    &&& r->Some_0.uptime_seconds == uptime_seconds
                    &&& r->Some_0.online
                    &&& r->Some_0.storage.used_bytes == used_bytes
                    &&& r->Some_0.storage.file_count == file_count
                    &&& r->Some_0.storage.quota_milli_gb == c.disk_quota_milli_gb
                    &&& r->Some_0.storage.data_path@ == data_path@
                },
                None => r is None,
            },
            None => r is None,
        },
{
    match store {
        None => None,
        Some(sm) => match sm.get_node_config() {
            None => None,
            Some(c) => {
                let storage = sm.get_storage_status(used_bytes, file_count, data_path);
                Some(
                    NodeStatus {
                        node_id: c.node_id,
                        node_name: c.node_name,
                        node_type: c.node_type,
                        uptime_seconds,
                        storage,
                        online: true,
                    },
                )
            },
        },
    }
}

} // verus!
