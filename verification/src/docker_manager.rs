//! The container runtime's command line: which commands to run, and what
//! their outcome means. Running them is the caller's business.

use vstd::prelude::*;
use vstd::string::*;
use crate::json::{json_error_text, json_text, json_text_member, json_valid};
use crate::text::{line_views, lines, occurs_at, opt_text, split_lines, string_from_chars, string_views, to_chars, trim, trim_chars, trimmed};

verus! {

/// Whether the container runtime is installed and running.
#[derive(Debug)]
pub struct DockerStatus {
    pub installed: bool,
    pub running: bool,
    pub version: Option<String>,
    pub error: Option<String>,
}

/// One container, as the runtime lists it.
#[derive(Debug)]
pub struct DockerContainer {
    pub id: String,
    pub names: String,
    pub image: String,
    pub status: String,
    pub state: String,
    pub ports: String,
    pub created: String,
}

/// How running a command went.
#[derive(Debug)]
pub enum CommandOutcome {
    /// The command could not be run; the reason as text.
    NotRun { reason: String },
    /// The command ran.
    Exited { success: bool, stdout: String, stderr: String },
}

/// A command line for the container runtime.
#[derive(Debug)]
pub struct DockerCommand {
    pub args: Vec<String>,
}

/// The arguments that ask for the server's version.
pub fn check_docker_command() -> (c: DockerCommand)
    ensures
        string_views(c.args@) == seq!["info"@, "--format"@, "{{.ServerVersion}}"@],
{
    let mut args: Vec<String> = Vec::new();
    args.push(String::from_str("info"));
    args.push(String::from_str("--format"));
    args.push(String::from_str("{{.ServerVersion}}"));
    assert(string_views(args@) =~= seq!["info"@, "--format"@, "{{.ServerVersion}}"@]);
    DockerCommand { args }
}

/// What the outcome of [`check_docker_command`] says about the runtime.
pub fn check_docker(outcome: &CommandOutcome) -> (s: DockerStatus)
    ensures
        match *outcome {
            CommandOutcome::Exited { success, stdout, stderr } => if success {
                s.installed && s.running && opt_text(s.version) == Some(trim(stdout@))
                    && s.error is None
            } else {
                s.installed && !s.running && s.version is None && opt_text(s.error) == Some(
                    trim(stderr@),
                )
            },
            CommandOutcome::NotRun { reason } => !s.installed && !s.running && s.version is None
                && opt_text(s.error) == Some("Docker not found in PATH"@),
        },
{
    match outcome {
        CommandOutcome::Exited { success, stdout, stderr } => {
            if *success {
                DockerStatus {
                    installed: true,
                    running: true,
                    version: Some(trimmed(stdout.as_str())),
                    error: None,
                }
            } else {
                DockerStatus {
                    installed: true,
                    running: false,
                    version: None,
                    error: Some(trimmed(stderr.as_str())),
                }
            }
        },
        CommandOutcome::NotRun { reason } => DockerStatus {
            installed: false,
            running: false,
            version: None,
            error: Some(String::from_str("Docker not found in PATH")),
        },
    }
}

fn one_arg_command(verb: &str, id: &str) -> (c: DockerCommand)
    ensures
        string_views(c.args@) == seq![verb@, id@],
{
    let mut args: Vec<String> = Vec::new();
    args.push(String::from_str(verb));
    args.push(String::from_str(id));
    assert(string_views(args@) =~= seq![verb@, id@]);
    DockerCommand { args }
}

/// The command that starts the container `id`.
pub fn start_container(id: &str) -> (c: DockerCommand)
    ensures
        string_views(c.args@) == seq!["start"@, id@],
{
    one_arg_command("start", id)
}

/// The command that stops the container `id`.
pub fn stop_container(id: &str) -> (c: DockerCommand)
    ensures
        string_views(c.args@) == seq!["stop"@, id@],
{
    one_arg_command("stop", id)
}

/// The command that restarts the container `id`.
pub fn restart_container(id: &str) -> (c: DockerCommand)
    ensures
        string_views(c.args@) == seq!["restart"@, id@],
{
    one_arg_command("restart", id)
}

/// The message for a command that could not be run.
pub open spec fn not_run_text(verb: Seq<char>, reason: Seq<char>) -> Seq<char> {
    "Failed to run docker "@ + verb + ": "@ + reason
}

/// The message for a command that ran and failed.
pub open spec fn failed_text(verb: Seq<char>, stderr: Seq<char>) -> Seq<char> {
    "docker "@ + verb + " failed: "@ + trim(stderr)
}

/// The view of the result of a command.
pub open spec fn unit_result_view(r: Result<(), String>) -> Result<(), Seq<char>> {
    match r {
        Ok(_) => Ok(()),
        Err(e) => Err(e@),
    }
}

/// The first word of a command, by which its messages name it; the empty
/// text for a command without words.
pub open spec fn verb_of(args: Seq<String>) -> Seq<char> {
    if args.len() > 0 {
        args[0]@
    } else {
        Seq::empty()
    }
}

/// What the outcome of a command means: success, or a message that names
/// the command's first word and the reason.
pub fn run_docker_command(command: &DockerCommand, outcome: &CommandOutcome) -> (r: Result<(), String>)
    ensures
        unit_result_view(r) == match *outcome {
            CommandOutcome::NotRun { reason } => Err::<(), Seq<char>>(
                not_run_text(verb_of(command.args@), reason@),
            ),
            CommandOutcome::Exited { success, stdout, stderr } => if success {
                Ok(())
            } else {
                Err(failed_text(verb_of(command.args@), stderr@))
            },
        },
{
    let verb: &str = if command.args.len() > 0 {
        command.args[0].as_str()
    } else {
        ""
    };
    proof {
        reveal_strlit("");
        assert(verb@ =~= verb_of(command.args@));
    }
    match outcome {
        CommandOutcome::NotRun { reason } => {
            let mut m = String::from_str("Failed to run docker ");
            m.append(verb);
            m.append(": ");
            m.append(reason.as_str());
            Err(m)
        },
        CommandOutcome::Exited { success, stdout, stderr } => {
            if *success {
                Ok(())
            } else {
                let mut m = String::from_str("docker ");
                m.append(verb);
                m.append(" failed: ");
                let t = trimmed(stderr.as_str());
                m.append(t.as_str());
                Err(m)
            }
        },
    }
}

/// The arguments that list all containers, one JSON object per line.
pub fn list_containers_command() -> (c: DockerCommand)
    ensures
        string_views(c.args@) == seq!["ps"@, "-a"@, "--format"@, "{{json .}}"@],
{
    let mut args: Vec<String> = Vec::new();
    args.push(String::from_str("ps"));
    args.push(String::from_str("-a"));
    args.push(String::from_str("--format"));
    args.push(String::from_str("{{json .}}"));
    assert(string_views(args@) =~= seq!["ps"@, "-a"@, "--format"@, "{{json .}}"@]);
    DockerCommand { args }
}

/// The member `key` of the JSON object `line`, or nothing where it has no
/// such string.
pub open spec fn member_or_empty(line: Seq<char>, key: Seq<char>) -> Seq<char> {
    match json_text(line, key) {
        Some(s) => s,
        None => Seq::empty(),
    }
}

/// `c` shows the container that the JSON object `line` describes.
pub open spec fn container_shows(c: DockerContainer, line: Seq<char>) -> bool {
    &&& c.id@ == member_or_empty(line, "ID"@)
    &&& c.names@ == member_or_empty(line, "Names"@)
    &&& c.image@ == member_or_empty(line, "Image"@)
    &&& c.status@ == member_or_empty(line, "Status"@)
    &&& c.state@ == member_or_empty(line, "State"@)
    &&& c.ports@ == member_or_empty(line, "Ports"@)
    &&& c.created@ == member_or_empty(line, "CreatedAt"@)
}

/// The lines of a listing that describe a container: each line trimmed,
/// the empty ones left out.
pub open spec fn container_lines(stdout: Seq<char>) -> Seq<Seq<char>> {
    lines(stdout).map_values(|l: Seq<char>| trim(l)).filter(|l: Seq<char>| l.len() > 0)
}

/// `list` shows the containers that `rows` describe, one by one.
pub open spec fn containers_show(list: Seq<DockerContainer>, rows: Seq<Seq<char>>) -> bool {
    &&& list.len() == rows.len()
    &&& forall|k: int| 0 <= k < list.len() ==> container_shows(#[trigger] list[k], rows[k])
}

/// Whether every text of `rows` is a JSON text.
pub open spec fn all_valid(rows: Seq<Seq<char>>) -> bool {
    forall|k: int| 0 <= k < rows.len() ==> json_valid(#[trigger] rows[k])
}

fn member(line: &str, key: &str) -> (r: Option<String>)
    ensures
        match r {
            Some(s) => json_valid(line@) && s@ == member_or_empty(line@, key@),
            None => !json_valid(line@),
        },
{
    match json_text_member(line, key) {
        Ok(Some(s)) => Some(s),
        Ok(None) => Some(String::new()),
        Err(_) => None,
    }
}

/// The container that one line of the listing describes; the parse error
/// where the line is no JSON text.
pub fn parse_container(line: &str) -> (r: Result<DockerContainer, String>)
    ensures
        match r {
            Ok(c) => json_valid(line@) && container_shows(c, line@),
            Err(m) => !json_valid(line@) && occurs_at(m@, "Failed to parse docker output: "@, 0),
        },
{
    let id = match json_text_member(line, "ID") {
        Ok(Some(s)) => s,
        Ok(None) => String::new(),
        Err(e) => {
            let mut m = String::from_str("Failed to parse docker output: ");
            let ghost prefix = m@;
            let detail = json_error_text(&e);
            m.append(detail.as_str());
            assert(m@.subrange(0, prefix.len() as int) =~= prefix);
            return Err(m);
        },
    };
    let names = match member(line, "Names") {
        Some(s) => s,
        None => String::new(),
    };
    let image = match member(line, "Image") {
        Some(s) => s,
        None => String::new(),
    };
    let status = match member(line, "Status") {
        Some(s) => s,
        None => String::new(),
    };
    let state = match member(line, "State") {
        Some(s) => s,
        None => String::new(),
    };
    let ports = match member(line, "Ports") {
        Some(s) => s,
        None => String::new(),
    };
    let created = match member(line, "CreatedAt") {
        Some(s) => s,
        None => String::new(),
    };
    Ok(DockerContainer { id, names, image, status, state, ports, created })
}

/// The containers that the outcome of [`list_containers_command`] lists.
/// Fails where the command did not run or failed, and at the first line
/// that is no JSON text.
pub fn list_containers(outcome: &CommandOutcome) -> (r: Result<Vec<DockerContainer>, String>)
    ensures
        match *outcome {
            CommandOutcome::NotRun { reason } => r is Err && r->Err_0@ == "Failed to run docker ps: "@
                + reason@,
            CommandOutcome::Exited { success, stdout, stderr } => if !success {
                r is Err && r->Err_0@ == "docker ps failed: "@ + trim(stderr@)
            } else if all_valid(container_lines(stdout@)) {
                r is Ok && containers_show(r->Ok_0@, container_lines(stdout@))
            } else {
                r is Err && occurs_at(r->Err_0@, "Failed to parse docker output: "@, 0)
            },
        },
{
    match outcome {
        CommandOutcome::NotRun { reason } => {
            let mut m = String::from_str("Failed to run docker ps: ");
            m.append(reason.as_str());
            Err(m)
        },
        CommandOutcome::Exited { success, stdout, stderr } => {
            if !*success {
                let mut m = String::from_str("docker ps failed: ");
                let t = trimmed(stderr.as_str());
                m.append(t.as_str());
                return Err(m);
            }
            parse_listing(stdout.as_str())
        },
    }
}

/// The containers that a listing describes; fails at the first line that
/// is no JSON text.
pub fn parse_listing(stdout: &str) -> (r: Result<Vec<DockerContainer>, String>)
    ensures
        if all_valid(container_lines(stdout@)) {
            r is Ok && containers_show(r->Ok_0@, container_lines(stdout@))
        } else {
            r is Err && occurs_at(r->Err_0@, "Failed to parse docker output: "@, 0)
        },
{
    let text = to_chars(stdout);
    let raw = split_lines(&text);
    let ghost trimmer = |l: Seq<char>| trim(l);
    let ghost nonempty = |l: Seq<char>| l.len() > 0;
    let ghost trimmed_lines = line_views(raw@).map_values(trimmer);
    let mut list: Vec<DockerContainer> = Vec::new();
    let ghost mut rows: Seq<Seq<char>> = Seq::empty();
    let mut i: usize = 0;
    proof {
        reveal(Seq::filter);
        assert(trimmed_lines.take(0) =~= Seq::<Seq<char>>::empty());
    }
    while i < raw.len()
        invariant
            i <= raw.len(),
            line_views(raw@) == lines(stdout@),
            trimmer == |l: Seq<char>| trim(l),
            nonempty == |l: Seq<char>| l.len() > 0,
            trimmed_lines == line_views(raw@).map_values(trimmer),
            rows == trimmed_lines.take(i as int).filter(nonempty),
            all_valid(rows),
            containers_show(list@, rows),
        decreases raw.len() - i,
    {
        let t = trim_chars(&raw[i]);
        proof {
            assert(trimmed_lines[i as int] == t@);
            assert(trimmed_lines.take(i + 1) =~= trimmed_lines.take(i as int).push(t@));
            trimmed_lines.take(i as int).lemma_filter_push(t@, nonempty);
        }
        if t.len() > 0 {
            let line = string_from_chars(&t);
            match parse_container(line.as_str()) {
                Ok(c) => {
                    list.push(c);
                    proof {
                        rows = rows.push(t@);
                    }
                },
                Err(m) => {
                    proof {
                        let bad = rows.push(t@);
                        assert(bad == trimmed_lines.take(i + 1).filter(nonempty));
                        lemma_filter_prefix(trimmed_lines, nonempty, i + 1);
                        let all = trimmed_lines.filter(nonempty);
                        assert(all == container_lines(stdout@));
                        assert(all.take(bad.len() as int) == bad);
                        assert(all[bad.len() - 1] == all.take(bad.len() as int)[bad.len() - 1]);
                        assert(bad[bad.len() - 1] == t@);
                        assert(!json_valid(all[bad.len() - 1]));
                    }
                    return Err(m);
                },
            }
        }
        i += 1;
    }
    proof {
        assert(trimmed_lines.take(raw.len() as int) =~= trimmed_lines);
    }
    Ok(list)
}

/// What a prefix of a list keeps under a filter stands at the front of what
/// the whole list keeps.
pub proof fn lemma_filter_prefix(s: Seq<Seq<char>>, p: spec_fn(Seq<char>) -> bool, n: int)
    requires
        0 <= n <= s.len(),
    ensures
        s.take(n).filter(p).len() <= s.filter(p).len(),
        s.filter(p).take(s.take(n).filter(p).len() as int) == s.take(n).filter(p),
    decreases s.len() - n,
{
    if n == s.len() {
        assert(s.take(n) =~= s);
    } else {
        lemma_filter_prefix(s, p, n + 1);
        assert(s.take(n + 1) =~= s.take(n).push(s[n]));
        s.take(n).lemma_filter_push(s[n], p);
        let a = s.take(n).filter(p);
        let b = s.take(n + 1).filter(p);
        assert(b.take(a.len() as int) =~= a);
        assert(s.filter(p).take(a.len() as int) =~= s.filter(p).take(b.len() as int).take(
            a.len() as int,
        ));
    }
}

} // verus!
