//! Command-line arguments.
use vstd::prelude::*;
use crate::text::same_text;

verus! {

/// The flags the program understands.
#[derive(Debug, Clone, Copy, PartialEq, Eq, Structural, Default)]
pub struct CliArgs {
    /// `--mcp` or `-m`: serve the MCP protocol.
    pub mcp_mode: bool,
    /// `--quiet` or `-q`.
    pub quiet: bool,
}

/// Whether one of the arguments before position `n`, after the program
/// name, is one of two spellings.
pub open spec fn flag_before(args: Seq<String>, long: Seq<char>, short: Seq<char>, n: int) -> bool
    decreases n,
{
    if n <= 1 {
        false
    } else {
        flag_before(args, long, short, n - 1) || args[n - 1]@ == long || args[n - 1]@ == short
    }
}

/// Whether some argument after the program name is one of two spellings.
pub open spec fn has_flag(args: Seq<String>, long: Seq<char>, short: Seq<char>) -> bool {
    flag_before(args, long, short, args.len() as int)
}

impl CliArgs {
    /// Reads the flags from the arguments (the first is the program name);
    /// unknown arguments are ignored.
    pub fn parse_from(args: &[String]) -> (r: Self)
        ensures
            r.mcp_mode == has_flag(args@, "--mcp"@, "-m"@),
            r.quiet == has_flag(args@, "--quiet"@, "-q"@),
    {
        let mut mcp_mode = false;
        let mut quiet = false;
        let mut i: usize = 1;
        while i < args.len()
            invariant
                1 <= i,
                i <= args.len() || i == 1,
                mcp_mode == flag_before(args@, "--mcp"@, "-m"@, i as int),
                quiet == flag_before(args@, "--quiet"@, "-q"@, i as int),
            decreases args.len() - i,
        {
            proof {
                reveal_strlit("--mcp");
                reveal_strlit("-m");
                reveal_strlit("--quiet");
                reveal_strlit("-q");
            }
            assert("--mcp"@ != "--quiet"@ && "--mcp"@ != "-q"@ && "-m"@ != "--quiet"@ && "-m"@ != "-q"@) by {
                assert("--mcp"@.len() == 5);
                assert("--quiet"@.len() == 7);
                assert("-m"@[1] == 'm');
                assert("-q"@[1] == 'q');
            }
            let a = args[i].as_str();
            if same_text(a, "--mcp") || same_text(a, "-m") {
                mcp_mode = true;
            } else if same_text(a, "--quiet") || same_text(a, "-q") {
                quiet = true;
            }
            i += 1;
        }
        CliArgs { mcp_mode, quiet }
    }
}

} // verus!
