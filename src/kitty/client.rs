//! How the remote-control calls to kitty are put together.

use vstd::prelude::*;
use vstd::string::*;
use crate::kitty::commands::KittyCommand;

verus! {

/// The arguments of `kitty` that run `cmd` by remote control: `@`, the
/// command and its arguments, then `--to SOCKET` when a socket is set.
pub open spec fn remote_argv(cmd: Seq<char>, args: Seq<Seq<char>>, socket: Option<Seq<char>>) -> Seq<
    Seq<char>,
> {
    let base = seq!["@"@, cmd] + args;
    match socket {
        Some(s) => base + seq!["--to"@, s],
        None => base,
    }
}

/// A handle on the kitty instance to talk to: its socket, or the default
/// one of the terminal the program runs in.
pub struct KittyClient {
    socket_path: Option<String>,
}

impl KittyClient {
    pub closed spec fn socket(&self) -> Option<Seq<char>> {
        match self.socket_path {
            Some(s) => Some(s@),
            None => None,
        }
    }

    pub fn with_socket(socket_path: Option<String>) -> (r: KittyClient)
        ensures
            r.socket() == match socket_path {
                Some(s) => Some(s@),
                None => None,
            },
    {
        KittyClient { socket_path }
    }

    /// The arguments of `kitty` that run `command` against this instance.
    pub fn remote_args(&self, command: &KittyCommand) -> (r: Vec<String>)
        ensures
            r@.map_values(|a: String| a@) == remote_argv(
                command.cmd@,
                command.args@.map_values(|a: String| a@),
                self.socket(),
            ),
    {
        let mut out: Vec<String> = vec![String::from_str("@"), command.cmd.clone()];
        let mut i: usize = 0;
        while i < command.args.len()
            invariant
                i <= command.args@.len(),
                out@.map_values(|a: String| a@) == seq!["@"@, command.cmd@] + command.args@.subrange(
                    0,
                    i as int,
                ).map_values(|a: String| a@),
            decreases command.args@.len() - i,
        {
            let ghost prev = out@.map_values(|a: String| a@);
            out.push(command.args[i].clone());
            assert(command.args@.subrange(0, i + 1).map_values(|a: String| a@) =~= command.args@.subrange(
                0,
                i as int,
            ).map_values(|a: String| a@).push(command.args@[i as int]@));
            assert(out@.map_values(|a: String| a@) =~= prev.push(command.args@[i as int]@));
            i = i + 1;
        }
        assert(command.args@.subrange(0, command.args@.len() as int) =~= command.args@);
        match &self.socket_path {
            Some(s) => {
                let ghost prev = out@.map_values(|a: String| a@);
                out.push(String::from_str("--to"));
                out.push(s.clone());
                assert(out@.map_values(|a: String| a@) =~= prev + seq!["--to"@, s@]);
            },
            None => {},
        }
        out
    }
}

} // verus!
