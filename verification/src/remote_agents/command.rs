//! How a snapshot stream is started and stopped: the ssh command, the script that it runs at the
//! remote host, and the order in which its processes are killed.

use vstd::prelude::*;
use vstd::string::*;

use crate::config::RemoteAgentSourceConfig;
use crate::protocol::{BUILD_VERSION, PROTOCOL_VERSION};
use crate::text::{chars_of, decimal, decimal_text, views};

verus! {

/// How many seconds the remote host waits between two snapshots.
pub const SNAPSHOT_INTERVAL_SECONDS: u64 = 2;

pub const SCRIPT_SESSION: &'static str = "fleet_session=";

pub const SCRIPT_PROBE: &'static str = r#"
fleet_bin=
try_herdr() {
    candidate=$1
    if [ -z "$candidate" ] || [ ! -x "$candidate" ]; then
        return 1
    fi
    fleet_schema=$("$candidate" api schema --json 2>/dev/null) || return 1
    case "$fleet_schema" in
        *'"protocol": "#;

pub const SCRIPT_CANDIDATES: &'static str = r#",'*) ;;
        *) return 1 ;;
    esac
    fleet_help=$("$candidate" api help 2>&1) || return 1
    case "$fleet_help" in
        *'herdr api snapshot'*) fleet_bin=$candidate; return 0 ;;
        *) return 1 ;;
    esac
}
path_candidate=$(command -v herdr 2>/dev/null || :)
try_herdr "$path_candidate" ||
try_herdr "$HOME/.local/bin/herdr" ||
try_herdr "/opt/homebrew/bin/herdr" ||
try_herdr "/usr/local/bin/herdr" ||
try_herdr "/home/linuxbrew/.linuxbrew/bin/herdr" ||
try_herdr "$HOME/.local/share/mise/installs/herdr/"#;

pub const SCRIPT_MISE_BIN: &'static str = r#"/bin/herdr" ||
try_herdr "$HOME/.local/share/mise/installs/herdr/"#;

pub const SCRIPT_MISE_PLAIN: &'static str = r#"/herdr" ||
try_herdr "$HOME/.local/share/mise/installs/github-ogulcancelik-herdr/"#;

pub const SCRIPT_STREAM: &'static str = r#"/herdr" ||
try_herdr "$HOME/.nix-profile/bin/herdr" ||
try_herdr "/etc/profiles/per-user/$USER/bin/herdr" ||
try_herdr "/nix/var/nix/profiles/default/bin/herdr" ||
try_herdr "/run/current-system/sw/bin/herdr" || {
    printf '%s\n' 'no compatible remote herdr binary found' >&2
    exit 127
}
env -u HERDR_SOCKET_PATH -u HERDR_CLIENT_SOCKET_PATH "$fleet_bin" --session "$fleet_session" api snapshot || exit $?
while sleep "#;

pub const SCRIPT_REPEAT: &'static str = r#"; do
    env -u HERDR_SOCKET_PATH -u HERDR_CLIENT_SOCKET_PATH "$fleet_bin" --session "$fleet_session" api snapshot || exit $?
done
"#;

/// A program with its arguments.
#[derive(Debug, PartialEq, Eq)]
pub struct SnapshotCommand {
    pub program: String,
    pub args: Vec<String>,
}

/// What ssh is told before the target: to ask nothing, to forward nothing, to share no
/// connection, and to give up soon.
pub open spec fn ssh_options() -> Seq<Seq<char>> {
    seq![
        "-T"@,
        "-o"@,
        "BatchMode=yes"@,
        "-o"@,
        "NumberOfPasswordPrompts=0"@,
        "-o"@,
        "StrictHostKeyChecking=yes"@,
        "-o"@,
        "UpdateHostKeys=no"@,
        "-o"@,
        "ClearAllForwardings=yes"@,
        "-o"@,
        "ForwardAgent=no"@,
        "-o"@,
        "ForwardX11=no"@,
        "-o"@,
        "GSSAPIDelegateCredentials=no"@,
        "-o"@,
        "PermitLocalCommand=no"@,
        "-o"@,
        "ControlMaster=no"@,
        "-o"@,
        "ControlPath=none"@,
        "-o"@,
        "ControlPersist=no"@,
        "-o"@,
        "RemoteCommand=none"@,
        "-o"@,
        "ConnectTimeout=5"@,
        "-o"@,
        "ConnectionAttempts=1"@,
        "-o"@,
        "ServerAliveInterval=5"@,
        "-o"@,
        "ServerAliveCountMax=2"@,
    ]
}

/// The arguments of ssh for a target. The target stands behind `--`, so that it is never taken
/// for an option.
pub open spec fn ssh_args(target: Seq<char>) -> Seq<Seq<char>> {
    ssh_options() + seq!["--"@, target, "/bin/sh -s"@]
}

fn push_arg(args: &mut Vec<String>, arg: &str)
    ensures
        views(final(args)@) == views(old(args)@).push(arg@),
{
    args.push(arg.to_owned());
    proof {
        assert(views(args@) =~= views(old(args)@).push(arg@));
    }
}

fn push_option(args: &mut Vec<String>, option: &str)
    ensures
        views(final(args)@) == views(old(args)@).push("-o"@).push(option@),
{
    push_arg(args, "-o");
    push_arg(args, option);
}

/// The command that runs a shell at the target of a source, with its input piped in.
pub fn snapshot_stream_command(source: &RemoteAgentSourceConfig) -> (command: SnapshotCommand)
    ensures
        command.program@ == "ssh"@,
        views(command.args@) == ssh_args(source.target@),
{
    let mut args: Vec<String> = Vec::new();
    push_arg(&mut args, "-T");
    push_option(&mut args, "BatchMode=yes");
    push_option(&mut args, "NumberOfPasswordPrompts=0");
    push_option(&mut args, "StrictHostKeyChecking=yes");
    push_option(&mut args, "UpdateHostKeys=no");
    push_option(&mut args, "ClearAllForwardings=yes");
    push_option(&mut args, "ForwardAgent=no");
    push_option(&mut args, "ForwardX11=no");
    push_option(&mut args, "GSSAPIDelegateCredentials=no");
    push_option(&mut args, "PermitLocalCommand=no");
    push_option(&mut args, "ControlMaster=no");
    push_option(&mut args, "ControlPath=none");
    push_option(&mut args, "ControlPersist=no");
    push_option(&mut args, "RemoteCommand=none");
    push_option(&mut args, "ConnectTimeout=5");
    push_option(&mut args, "ConnectionAttempts=1");
    push_option(&mut args, "ServerAliveInterval=5");
    push_option(&mut args, "ServerAliveCountMax=2");
    proof {
        assert(views(args@) =~= ssh_options());
    }
    push_arg(&mut args, "--");
    push_arg(&mut args, source.target.as_str());
    push_arg(&mut args, "/bin/sh -s");
    proof {
        assert(views(args@) =~= ssh_args(source.target@));
    }
    SnapshotCommand { program: "ssh".to_owned(), args }
}

/// A text with each single quote put in double quotes, outside the single quotes around it.
pub open spec fn quote_escaped(value: Seq<char>) -> Seq<char>
    decreases value.len(),
{
    if value.len() == 0 {
        Seq::empty()
    } else if value.last() == '\'' {
        quote_escaped(value.drop_last()) + seq!['\'', '"', '\'', '"', '\'']
    } else {
        quote_escaped(value.drop_last()).push(value.last())
    }
}

/// A text as a single word of a shell script.
pub open spec fn shell_quoted(value: Seq<char>) -> Seq<char> {
    seq!['\''] + quote_escaped(value) + seq!['\'']
}

/// Writes a text as a single word of a shell script.
pub fn shell_quote(value: &str) -> (quoted: String)
    ensures
        quoted@ == shell_quoted(value@),
{
    let chars = chars_of(value);
    let mut quoted = String::new();
    quoted.push('\'');
    let mut i: usize = 0;
    proof {
        assert(quoted@ =~= seq!['\''] + quote_escaped(chars@.take(0)));
    }
    while i < chars.len()
        invariant
            i <= chars.len(),
            quoted@ == seq!['\''] + quote_escaped(chars@.take(i as int)),
        decreases chars.len() - i,
    {
        proof {
            assert(chars@.take(i + 1).drop_last() =~= chars@.take(i as int));
        }
        let c = chars[i];
        let ghost before = quoted@;
        if c == '\'' {
            quoted.push('\'');
            quoted.push('"');
            quoted.push('\'');
            quoted.push('"');
            quoted.push('\'');
            proof {
                assert(quoted@ =~= seq!['\''] + quote_escaped(chars@.take(i + 1)));
            }
        } else {
            quoted.push(c);
            proof {
                assert(quoted@ =~= seq!['\''] + quote_escaped(chars@.take(i + 1)));
            }
        }
        i = i + 1;
    }
    quoted.push('\'');
    proof {
        assert(chars@.take(chars@.len() as int) =~= chars@);
        assert(quoted@ =~= shell_quoted(value@));
    }
    quoted
}

/// How a shell reads the characters of a word.
pub enum Quoting {
    Bare,
    Single,
    Double,
}

/// A shell in the middle of a word.
pub struct ShellWord {
    pub quoting: Quoting,
    /// What the word stands for so far.
    pub text: Seq<char>,
    /// Whether the word was written so that the shell takes every character as it is.
    pub literal: bool,
}

/// A shell that has read one more character of a word.
pub open spec fn shell_step(word: ShellWord, c: char) -> ShellWord {
    match word.quoting {
        Quoting::Bare => if c == '\'' {
            ShellWord { quoting: Quoting::Single, ..word }
        } else if c == '"' {
            ShellWord { quoting: Quoting::Double, ..word }
        } else {
            ShellWord { literal: false, ..word }
        },
        Quoting::Single => if c == '\'' {
            ShellWord { quoting: Quoting::Bare, ..word }
        } else {
            ShellWord { text: word.text.push(c), ..word }
        },
        Quoting::Double => if c == '"' {
            ShellWord { quoting: Quoting::Bare, ..word }
        } else if c == '$' || c == '`' || c == '\\' {
            ShellWord { literal: false, ..word }
        } else {
            ShellWord { text: word.text.push(c), ..word }
        },
    }
}

/// A shell that has read the given characters of a word.
pub open spec fn shell_reading(source: Seq<char>) -> ShellWord
    decreases source.len(),
{
    if source.len() == 0 {
        ShellWord { quoting: Quoting::Bare, text: Seq::empty(), literal: true }
    } else {
        shell_step(shell_reading(source.drop_last()), source.last())
    }
}

proof fn lemma_reading_push(source: Seq<char>, c: char)
    ensures
        shell_reading(source.push(c)) == shell_step(shell_reading(source), c),
{
    assert(source.push(c).drop_last() =~= source);
}

proof fn lemma_escaped_read(value: Seq<char>)
    ensures
        shell_reading(seq!['\''] + quote_escaped(value)) == (ShellWord {
            quoting: Quoting::Single,
            text: value,
            literal: true,
        }),
    decreases value.len(),
{
    let opened = seq!['\''];
    if value.len() == 0 {
        lemma_reading_push(Seq::empty(), '\'');
        assert(Seq::<char>::empty().push('\'') =~= opened + quote_escaped(value));
        assert(value =~= Seq::<char>::empty());
    } else {
        let rest = value.drop_last();
        lemma_escaped_read(rest);
        let before = opened + quote_escaped(rest);
        assert(rest.push(value.last()) =~= value);
        if value.last() == '\'' {
            let a = before.push('\'');
            let b = a.push('"');
            let c = b.push('\'');
            let d = c.push('"');
            lemma_reading_push(before, '\'');
            lemma_reading_push(a, '"');
            lemma_reading_push(b, '\'');
            lemma_reading_push(c, '"');
            lemma_reading_push(d, '\'');
            assert(d.push('\'') =~= opened + quote_escaped(value));
        } else {
            lemma_reading_push(before, value.last());
            assert(before.push(value.last()) =~= opened + quote_escaped(value));
        }
    }
}

/// A shell reads a quoted text back as the text itself: the word is closed, nothing in it is
/// expanded, and nothing of it is left over.
pub proof fn quoted_text_reads_back(value: Seq<char>)
    ensures
        shell_reading(shell_quoted(value)) == (ShellWord {
            quoting: Quoting::Bare,
            text: value,
            literal: true,
        }),
{
    lemma_escaped_read(value);
    let before = seq!['\''] + quote_escaped(value);
    lemma_reading_push(before, '\'');
    assert(before.push('\'') =~= shell_quoted(value));
}

/// The script that finds a compatible herdr at the remote host and has it print snapshots of a
/// session, one per line, until it fails.
pub open spec fn snapshot_script(session: Seq<char>) -> Seq<char> {
    SCRIPT_SESSION@ + shell_quoted(session) + SCRIPT_PROBE@ + decimal(PROTOCOL_VERSION as nat)
        + SCRIPT_CANDIDATES@ + BUILD_VERSION@ + SCRIPT_MISE_BIN@ + BUILD_VERSION@
        + SCRIPT_MISE_PLAIN@ + BUILD_VERSION@ + SCRIPT_STREAM@ + decimal(
        SNAPSHOT_INTERVAL_SECONDS as nat,
    ) + SCRIPT_REPEAT@
}

/// Writes the script that streams the snapshots of a session.
pub fn remote_snapshot_script(session: &str) -> (script: String)
    ensures
        script@ == snapshot_script(session@),
{
    let quoted = shell_quote(session);
    let protocol = decimal_text(PROTOCOL_VERSION as u64);
    let interval = decimal_text(SNAPSHOT_INTERVAL_SECONDS);
    let mut script = SCRIPT_SESSION.to_owned();
    script.append(quoted.as_str());
    script.append(SCRIPT_PROBE);
    script.append(protocol.as_str());
    script.append(SCRIPT_CANDIDATES);
    script.append(BUILD_VERSION);
    script.append(SCRIPT_MISE_BIN);
    script.append(BUILD_VERSION);
    script.append(SCRIPT_MISE_PLAIN);
    script.append(BUILD_VERSION);
    script.append(SCRIPT_STREAM);
    script.append(interval.as_str());
    script.append(SCRIPT_REPEAT);
    script
}

/// Whether a list of process ids goes strictly down.
pub open spec fn descending(pids: Seq<u32>) -> bool {
    forall|i: int, j: int| 0 <= i < j < pids.len() ==> #[trigger] pids[i] > #[trigger] pids[j]
}

/// Puts a process id in its place, unless it is there already.
fn insert_descending(pids: &mut Vec<u32>, pid: u32)
    requires
        descending(old(pids)@),
    ensures
        descending(final(pids)@),
        forall|x: u32| #[trigger] final(pids)@.contains(x) <==> old(pids)@.contains(x) || x == pid,
{
    let mut at: usize = 0;
    while at < pids.len() && pids[at] > pid
        invariant
            at <= pids.len(),
            forall|i: int| 0 <= i < at ==> #[trigger] pids@[i] > pid,
            pids@ == old(pids)@,
        decreases pids.len() - at,
    {
        at = at + 1;
    }
    if at < pids.len() && pids[at] == pid {
        proof {
            assert(pids@.contains(pids@[at as int]));
        }
        return;
    }
    pids.insert(at, pid);
    proof {
        let before = old(pids)@;
        assert forall|x: u32| #[trigger] pids@.contains(x) <==> before.contains(x) || x
            == pid by {
            if before.contains(x) {
                let i = choose|i: int| 0 <= i < before.len() && before[i] == x;
                if i < at {
                    assert(pids@[i] == x);
                } else {
                    assert(pids@[i + 1] == x);
                }
            }
            if x == pid {
                assert(pids@[at as int] == x);
            }
            if pids@.contains(x) {
                let i = choose|i: int| 0 <= i < pids@.len() && pids@[i] == x;
                if i < at {
                    assert(before[i] == x);
                } else if i > at {
                    assert(before[i - 1] == x);
                }
            }
        }
    }
}

/// The processes to kill for a child: those of its session, or the child alone where none are
/// known. Each comes once, the highest id first.
pub fn kill_order(session_pids: &Vec<u32>, child: u32) -> (pids: Vec<u32>)
    ensures
        descending(pids@),
        forall|i: int, j: int|
            0 <= i < j < pids@.len() ==> #[trigger] pids@[i] > #[trigger] pids@[j],
        forall|x: u32| #[trigger]
            pids@.contains(x) <==> session_pids@.contains(x) || (session_pids@.len() == 0 && x
                == child),
{
    let mut pids: Vec<u32> = Vec::new();
    if session_pids.len() == 0 {
        pids.push(child);
        proof {
            assert(pids@[0] == child);
        }
        return pids;
    }
    let mut i: usize = 0;
    while i < session_pids.len()
        invariant
            i <= session_pids.len(),
            descending(pids@),
            forall|x: u32| #[trigger]
                pids@.contains(x) <==> session_pids@.take(i as int).contains(x),
        decreases session_pids.len() - i,
    {
        let ghost before = pids@;
        insert_descending(&mut pids, session_pids[i]);
        proof {
            let taken = session_pids@.take(i as int);
            let more = session_pids@.take(i + 1);
            assert(more =~= taken.push(session_pids@[i as int]));
            assert forall|x: u32| #[trigger] pids@.contains(x) <==> more.contains(x) by {
                assert(before.contains(x) <==> taken.contains(x));
                if more.contains(x) {
                    let k = choose|k: int| 0 <= k < more.len() && more[k] == x;
                    if k < i {
                        assert(taken[k] == x);
                    }
                }
                if taken.contains(x) {
                    let k = choose|k: int| 0 <= k < taken.len() && taken[k] == x;
                    assert(more[k] == x);
                }
                assert(more[i as int] == session_pids@[i as int]);
            }
        }
        i = i + 1;
    }
    proof {
        assert(session_pids@.take(session_pids@.len() as int) =~= session_pids@);
    }
    pids
}

} // verus!
