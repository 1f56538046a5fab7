//! Parsing serial-console command lines.
//!
//! A line is split on single spaces; the first word picks the subcommand and
//! the second the action. Only `wireless get` maps to a command today.

use vstd::prelude::*;

verus! {

/// Commands recieved from the serial console
#[derive(Debug, Clone, Copy, PartialEq, Eq, Structural)]
pub enum ConsoleCommand {
    Wireless(WirelessCommands),
}

/// Commands related to wireless communication
#[derive(Debug, Clone, Copy, PartialEq, Eq, Structural)]
pub enum WirelessCommands {
    /// Set the port to bind to
    SetPort,
    /// Print wireless info to console
    Get,
}

/// Index of the first space in `s`, or `s.len()` if none occurs.
pub open spec fn first_space(s: Seq<u8>) -> int
    decreases s.len(),
{
    if s.len() == 0 {
        0
    } else if s[0] == 32 {
        0
    } else {
        1 + first_space(s.drop_first())
    }
}

pub proof fn lemma_first_space(s: Seq<u8>)
    ensures
        0 <= first_space(s) <= s.len(),
        first_space(s) < s.len() ==> s[first_space(s)] == 32,
        forall|j: int| 0 <= j < first_space(s) ==> s[j] != 32,
    decreases s.len(),
{
    if s.len() > 0 && s[0] != 32 {
        lemma_first_space(s.drop_first());
        assert forall|j: int| 0 <= j < first_space(s) implies s[j] != 32 by {
            if j > 0 {
                assert(s[j] == s.drop_first()[j - 1]);
            }
        }
    }
}

pub proof fn lemma_first_space_is(s: Seq<u8>, i: int)
    requires
        0 <= i <= s.len(),
        i < s.len() ==> s[i] == 32,
        forall|j: int| 0 <= j < i ==> s[j] != 32,
    ensures
        first_space(s) == i,
    decreases s.len(),
{
    if s.len() > 0 && s[0] != 32 {
        lemma_first_space_is(s.drop_first(), i - 1);
    }
}

/// The bytes of the word `wireless`.
pub open spec fn wireless_word() -> Seq<u8> {
    seq![119u8, 105u8, 114u8, 101u8, 108u8, 101u8, 115u8, 115u8]
}

/// The bytes of the word `get`.
pub open spec fn get_word() -> Seq<u8> {
    seq![103u8, 101u8, 116u8]
}

/// What a console line means: its first word must be `wireless` and the word
/// after it `get`; everything else is no command.
pub open spec fn console_line_command(s: Seq<u8>) -> Option<ConsoleCommand> {
    let f1 = first_space(s);
    if s.take(f1) == wireless_word() && f1 < s.len() {
        let rest = s.skip(f1 + 1);
        let f2 = first_space(rest);
        if rest.take(f2) == get_word() {
            Some(ConsoleCommand::Wireless(WirelessCommands::Get))
        } else {
            None
        }
    } else {
        None
    }
}

/// Scans a line for its first space.
fn find_space(s: &[u8]) -> (i: usize)
    ensures
        i == first_space(s@),
{
    let n = s.len();
    let mut i: usize = 0;
    while i < n
        invariant
            i <= n,
            n == s@.len(),
            forall|j: int| 0 <= j < i ==> s@[j] != 32,
        decreases n - i,
    {
        if s[i] == 32 {
            proof {
                lemma_first_space_is(s@, i as int);
            }
            return i;
        }
        i = i + 1;
    }
    proof {
        lemma_first_space_is(s@, n as int);
    }
    n
}

fn is_wireless(tok: &[u8]) -> (r: bool)
    ensures
        r == (tok@ == wireless_word()),
{
    let r = tok.len() == 8 && tok[0] == 119 && tok[1] == 105 && tok[2] == 114 && tok[3] == 101
        && tok[4] == 108 && tok[5] == 101 && tok[6] == 115 && tok[7] == 115;
    proof {
        if r {
            assert(tok@ =~= wireless_word());
        }
    }
    r
}

fn is_get(tok: &[u8]) -> (r: bool)
    ensures
        r == (tok@ == get_word()),
{
    let r = tok.len() == 3 && tok[0] == 103 && tok[1] == 101 && tok[2] == 116;
    proof {
        if r {
            assert(tok@ =~= get_word());
        }
    }
    r
}

/// Consume a byte buffer (line delimited) and parse command options
pub fn parse(bytes: &[u8]) -> (r: Option<ConsoleCommand>)
    ensures
        r == console_line_command(bytes@),
{
    let n = bytes.len();
    let f1 = find_space(bytes);
    proof {
        lemma_first_space(bytes@);
        assert(bytes@.subrange(0, f1 as int) =~= bytes@.take(f1 as int));
    }
    if !is_wireless(&bytes[0..f1]) {
        return None;
    }
    if f1 == n {
        return None;
    }
    let rest = &bytes[f1 + 1..n];
    proof {
        assert(rest@ =~= bytes@.skip(f1 + 1));
    }
    let f2 = find_space(rest);
    proof {
        lemma_first_space(rest@);
        assert(rest@.subrange(0, f2 as int) =~= rest@.take(f2 as int));
    }
    if is_get(&rest[0..f2]) {
        Some(ConsoleCommand::Wireless(WirelessCommands::Get))
    } else {
        None
    }
}

} // verus!
