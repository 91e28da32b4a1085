//! The command protocol of the ELM327 adapter: the initialisation sequence,
//! the framing of a command and the end of an answer.

use crate::dtc::{CLEAR_DTC_CMD, READ_DTC_CMD};
use crate::subaru::ej205_entry;
use crate::text::{chars_of, contains, has_char, owned};
use vstd::prelude::*;

verus! {

/// Connection attempts to the Bluetooth proxy before giving up (one second
/// apart).
pub const CONNECT_ATTEMPTS: u32 = 10;

/// Pause after a failed connection attempt, in milliseconds.
pub const CONNECT_PAUSE_MS: u64 = 1000;

/// What to do after a connection attempt to the Bluetooth proxy.
#[derive(Debug, Clone, Copy, PartialEq, Eq, Structural)]
pub enum ConnectAction {
    /// The proxy answered: initialise the adapter.
    Init,
    /// The attempt failed: pause `ms` milliseconds, then try again when
    /// `retry` holds, or give up with the last error.
    Pause { ms: u64, retry: bool },
}

/// The retry policy of the connection: up to [`CONNECT_ATTEMPTS`] attempts,
/// a one-second pause after each failure (the last one too), and the
/// adapter set-up after the first success.
pub fn connect_step(attempt: u32, connected: bool) -> (a: ConnectAction)
    requires
        1 <= attempt <= CONNECT_ATTEMPTS,
    ensures
        connected ==> a == ConnectAction::Init,
        !connected ==> a == (ConnectAction::Pause {
            ms: CONNECT_PAUSE_MS,
            retry: attempt < CONNECT_ATTEMPTS,
        }),
{
    if connected {
        ConnectAction::Init
    } else {
        ConnectAction::Pause { ms: CONNECT_PAUSE_MS, retry: attempt < CONNECT_ATTEMPTS }
    }
}

/// Header command that enables the Subaru mode 21 requests.
pub const MODE21_HEADER_CMD: &'static str = "AT SH 7E0";

pub open spec fn init_entry(i: int) -> Seq<char> {
    if i == 0 {
        "ATZ"@
    } else if i == 1 {
        "ATE0"@
    } else if i == 2 {
        "ATL0"@
    } else if i == 3 {
        "ATS0"@
    } else if i == 4 {
        "ATH0"@
    } else if i == 5 {
        "ATSP0"@
    } else if i == 6 {
        "ATAT1"@
    } else {
        "0100"@
    }
}

/// The adapter initialisation: reset (`ATZ`, which needs about 1.5 s), echo,
/// linefeeds, spaces and headers off, protocol auto-detection, adaptive
/// timing, and a warm-up request.
pub fn init_sequence() -> (cmds: Vec<&'static str>)
    ensures
        cmds@.len() == 8,
        forall|i: int| 0 <= i < 8 ==> (#[trigger] cmds@[i])@ == init_entry(i),
{
    vec!["ATZ", "ATE0", "ATL0", "ATS0", "ATH0", "ATSP0", "ATAT1", "0100"]
}

/// The text sent for a command: the command and a carriage return.
pub fn command_text(cmd: &str) -> (t: String)
    ensures
        t@ == cmd@ + seq!['\r'],
{
    let mut t = owned(cmd);
    t.push('\r');
    t
}

/// Whether a received line ends the answer: the adapter's `>` prompt.
pub fn is_prompt_line(line: &str) -> (b: bool)
    ensures
        b == contains(line@, seq!['>']),
{
    has_char(&chars_of(line), '>')
}

/// A request of a reprogramming service (`0x34`-`0x37` transfer, `0x3B`
/// write by identifier), which could alter the ECU.
pub open spec fn is_write_service(cmd: Seq<char>) -> bool {
    cmd.len() >= 2 && cmd[0] == '3' && (cmd[1] == '4' || cmd[1] == '5' || cmd[1] == '6' || cmd[1]
        == '7' || cmd[1] == 'B' || cmd[1] == 'b')
}

/// The adapter only receives fixed commands, none of which is a write or
/// flash request: the initialisation sequence, the PID table, the mode 21
/// header and the two trouble-code requests.
pub proof fn law_no_write_commands()
    ensures
        forall|i: int| 0 <= i < 8 ==> !is_write_service(#[trigger] init_entry(i)),
        forall|i: int| 0 <= i < 13 ==> !is_write_service((#[trigger] ej205_entry(i)).1),
        !is_write_service(MODE21_HEADER_CMD@),
        !is_write_service(READ_DTC_CMD@),
        !is_write_service(CLEAR_DTC_CMD@),
{
    reveal_strlit("ATZ");
    reveal_strlit("ATE0");
    reveal_strlit("ATL0");
    reveal_strlit("ATS0");
    reveal_strlit("ATH0");
    reveal_strlit("ATSP0");
    reveal_strlit("ATAT1");
    reveal_strlit("0100");
    reveal_strlit("010C");
    reveal_strlit("010B");
    reveal_strlit("0111");
    reveal_strlit("0110");
    reveal_strlit("0105");
    reveal_strlit("010F");
    reveal_strlit("010A");
    reveal_strlit("0104");
    reveal_strlit("2101");
    reveal_strlit("AT SH 7E0");
    reveal_strlit("03");
    reveal_strlit("04");
}

} // verus!
