//! What the snapshot command and its script are made of.

use vstd::prelude::*;
use vstd::string::*;

use crate::remote_agents::command::{
    descending, quote_escaped, shell_quoted, snapshot_script, ssh_args,
};

verus! {

/// The target of a source stands behind `--` and before the shell that ssh runs there, and is the
/// only argument that depends on the source.
pub proof fn target_is_one_argument(target: Seq<char>, other: Seq<char>)
    ensures
        ssh_args(target).len() == 38,
        ssh_args(target)[35] == "--"@,
        ssh_args(target)[36] == target,
        ssh_args(target)[37] == "/bin/sh -s"@,
        forall|i: int|
            0 <= i < 38 && i != 36 ==> #[trigger] ssh_args(target)[i] == ssh_args(other)[i],
{
}

/// Whatever the target, ssh takes no terminal, asks nothing, trusts only known hosts, forwards
/// nothing, shares no connection, runs nothing else, and gives up soon.
pub proof fn connections_are_kept_apart(target: Seq<char>)
    ensures
        ssh_args(target)[0] == "-T"@,
        forall|i: int| 0 <= i < 17 ==> ssh_args(target)[#[trigger] (2 * i) + 1] == "-o"@,
        ssh_args(target)[2] == "BatchMode=yes"@,
        ssh_args(target)[4] == "NumberOfPasswordPrompts=0"@,
        ssh_args(target)[6] == "StrictHostKeyChecking=yes"@,
        ssh_args(target)[8] == "UpdateHostKeys=no"@,
        ssh_args(target)[10] == "ClearAllForwardings=yes"@,
        ssh_args(target)[12] == "ForwardAgent=no"@,
        ssh_args(target)[14] == "ForwardX11=no"@,
        ssh_args(target)[16] == "GSSAPIDelegateCredentials=no"@,
        ssh_args(target)[18] == "PermitLocalCommand=no"@,
        ssh_args(target)[20] == "ControlMaster=no"@,
        ssh_args(target)[22] == "ControlPath=none"@,
        ssh_args(target)[24] == "ControlPersist=no"@,
        ssh_args(target)[26] == "RemoteCommand=none"@,
        ssh_args(target)[28] == "ConnectTimeout=5"@,
        ssh_args(target)[30] == "ConnectionAttempts=1"@,
        ssh_args(target)[32] == "ServerAliveInterval=5"@,
        ssh_args(target)[34] == "ServerAliveCountMax=2"@,
{
}

/// A text that follows another is escaped behind it.
pub proof fn texts_are_escaped_one_by_one(a: Seq<char>, b: Seq<char>)
    ensures
        quote_escaped(a + b) == quote_escaped(a) + quote_escaped(b),
    decreases b.len(),
{
    if b.len() == 0 {
        assert(a + b =~= a);
        assert(quote_escaped(a) + quote_escaped(b) =~= quote_escaped(a));
    } else {
        texts_are_escaped_one_by_one(a, b.drop_last());
        assert((a + b).drop_last() =~= a + b.drop_last());
        assert(quote_escaped(a + b) =~= quote_escaped(a) + quote_escaped(b));
    }
}

/// A text without single quotes stands between two of them as it is.
pub proof fn plain_texts_are_only_enclosed(value: Seq<char>)
    requires
        forall|i: int| 0 <= i < value.len() ==> #[trigger] value[i] != '\'',
    ensures
        quote_escaped(value) == value,
        shell_quoted(value) == seq!['\''] + value + seq!['\''],
    decreases value.len(),
{
    if value.len() > 0 {
        let rest = value.drop_last();
        assert forall|i: int| 0 <= i < rest.len() implies #[trigger] rest[i] != '\'' by {
            assert(rest[i] == value[i]);
        }
        plain_texts_are_only_enclosed(rest);
        assert(value.last() != '\'');
        assert(rest.push(value.last()) =~= value);
    }
}

/// The script names its session at the start, quoted, and is the same for every session behind it.
pub proof fn sessions_are_named_at_the_start(session: Seq<char>, other: Seq<char>)
    ensures
        ({
            let start = "fleet_session="@ + shell_quoted(session);
            let other_start = "fleet_session="@ + shell_quoted(other);
            let script = snapshot_script(session);
            let other_script = snapshot_script(other);
            &&& start.len() <= script.len()
            &&& script.take(start.len() as int) == start
            &&& script.skip(start.len() as int) == other_script.skip(other_start.len() as int)
        }),
{
    let start = "fleet_session="@ + shell_quoted(session);
    let other_start = "fleet_session="@ + shell_quoted(other);
    let script = snapshot_script(session);
    let other_script = snapshot_script(other);
    assert(script.take(start.len() as int) =~= start);
    assert(script.skip(start.len() as int) =~= other_script.skip(other_start.len() as int));
}

/// Of two processes the one with the higher id is killed first, and none is killed twice.
pub proof fn higher_ids_come_first(pids: Seq<u32>, i: int, j: int)
    requires
        descending(pids),
        0 <= i < pids.len(),
        0 <= j < pids.len(),
    ensures
        i < j <==> pids[i] > pids[j],
        i == j <==> pids[i] == pids[j],
{
}

} // verus!
