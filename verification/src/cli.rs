//! What the program is asked to do on its command line.
use crate::text;
use vstd::prelude::*;

verus! {

/// What the program does.
#[derive(Debug)]
pub enum Command {
    /// Measure the token contract.
    Benchmark,
    /// Compare two files.
    Compare { current: String, base: String },
    /// Say how a comparison is asked for, and fail.
    CompareUsage,
    /// Answer requests.
    Serve,
}

/// What a [`Command`] stands for.
pub enum CommandView {
    Benchmark,
    Compare { current: Seq<char>, base: Seq<char> },
    CompareUsage,
    Serve,
}

impl View for Command {
    type V = CommandView;

    open spec fn view(&self) -> CommandView {
        match *self {
            Command::Benchmark => CommandView::Benchmark,
            Command::Compare { current, base } => CommandView::Compare {
                current: current@,
                base: base@,
            },
            Command::CompareUsage => CommandView::CompareUsage,
            Command::Serve => CommandView::Serve,
        }
    }
}

/// What the arguments ask for; the first of them is the name of the program.
pub open spec fn asked(args: Seq<String>) -> CommandView {
    if args.len() > 1 && args[1]@ == "benchmark"@ {
        CommandView::Benchmark
    } else if args.len() > 1 && args[1]@ == "compare"@ {
        if args.len() < 4 {
            CommandView::CompareUsage
        } else {
            CommandView::Compare { current: args[2]@, base: args[3]@ }
        }
    } else {
        CommandView::Serve
    }
}

/// What the arguments ask for; the first of them is the name of the program.
pub fn command(args: &Vec<String>) -> (r: Command)
    ensures
        r@ == asked(args@),
{
    if args.len() > 1 && text::same(args[1].as_str(), "benchmark") {
        Command::Benchmark
    } else if args.len() > 1 && text::same(args[1].as_str(), "compare") {
        if args.len() < 4 {
            Command::CompareUsage
        } else {
            Command::Compare { current: args[2].clone(), base: args[3].clone() }
        }
    } else {
        Command::Serve
    }
}

/// How a comparison is asked for.
pub fn compare_usage() -> (text: &'static str)
    ensures
        text@
            == "Usage: soroscope-core compare <current.wasm> <base.wasm>\n\nCompare two WASM contract versions and detect resource regressions.\n\nArguments:\n  <current.wasm>  Path to the new (current) version WASM file\n  <base.wasm>     Path to the reference (base) version WASM file\n"@,
{
    "Usage: soroscope-core compare <current.wasm> <base.wasm>\n\nCompare two WASM contract versions and detect resource regressions.\n\nArguments:\n  <current.wasm>  Path to the new (current) version WASM file\n  <base.wasm>     Path to the reference (base) version WASM file\n"
}

/// Why two files cannot be compared: one of them is missing. The first one is looked at first.
pub open spec fn missing(
    current: Seq<char>,
    current_exists: bool,
    base: Seq<char>,
    base_exists: bool,
) -> Option<Seq<char>> {
    if !current_exists {
        Some("Error: Current WASM file not found: "@ + current)
    } else if !base_exists {
        Some("Error: Base WASM file not found: "@ + base)
    } else {
        None
    }
}

/// Why two files cannot be compared, given how their paths are written out and whether they exist.
pub fn missing_file(
    current: &str,
    current_exists: bool,
    base: &str,
    base_exists: bool,
) -> (r: Option<String>)
    ensures
        match r {
            Some(message) => missing(current@, current_exists, base@, base_exists) == Some(
                message@,
            ),
            None => missing(current@, current_exists, base@, base_exists) is None,
        },
{
    if !current_exists {
        let mut message = "Error: Current WASM file not found: ".to_owned();
        message.append(current);
        Some(message)
    } else if !base_exists {
        let mut message = "Error: Base WASM file not found: ".to_owned();
        message.append(base);
        Some(message)
    } else {
        None
    }
}

// ── Laws ───────────────────────────────────────────────────────────────────

/// The names of the commands differ.
proof fn lemma_command_names()
    ensures
        "compare"@ != "benchmark"@,
{
    reveal_strlit("compare");
    reveal_strlit("benchmark");
    assert("compare"@.len() != "benchmark"@.len());
}

/// Whatever the program is called and whatever the two files are called, a comparison with two files
/// compares these, the first as the current one; what follows makes no difference.
pub proof fn law_two_files_are_compared(
    program: String,
    word: String,
    current: String,
    base: String,
    more: Seq<String>,
)
    requires
        word@ == "compare"@,
    ensures
        asked(seq![program, word, current, base] + more) == (CommandView::Compare {
            current: current@,
            base: base@,
        }),
        asked(seq![program, word, current, base]) == (CommandView::Compare {
            current: current@,
            base: base@,
        }),
{
    lemma_command_names();
    let args = seq![program, word, current, base] + more;
    assert(args[1] == word && args[2] == current && args[3] == base);
}

/// How a comparison is asked for is said if and only if one is asked for with less than two files.
pub proof fn law_usage_if_a_file_is_missing(args: Seq<String>)
    ensures
        asked(args) is CompareUsage <==> (args.len() == 2 || args.len() == 3) && args[1]@
            == "compare"@,
{
    lemma_command_names();
}

/// The word behind the program's name decides: `benchmark` measures, `compare` compares or says how,
/// and without a word or with any other the program serves.
pub proof fn law_first_word_decides(args: Seq<String>)
    ensures
        asked(args) is Benchmark <==> args.len() >= 2 && args[1]@ == "benchmark"@,
        asked(args) is Compare || asked(args) is CompareUsage <==> args.len() >= 2 && args[1]@
            == "compare"@,
        asked(args) is Serve <==> args.len() < 2 || (args[1]@ != "benchmark"@ && args[1]@
            != "compare"@),
{
    lemma_command_names();
}

/// A command stands for what it holds: the current file is the current one, and the base the base.
pub proof fn law_commands_stand_for_themselves(command: Command)
    ensures
        command matches Command::Compare { current, base } ==> command@ == (CommandView::Compare {
            current: current@,
            base: base@,
        }),
        command is Benchmark <==> command@ is Benchmark,
        command is Compare <==> command@ is Compare,
        command is CompareUsage <==> command@ is CompareUsage,
        command is Serve <==> command@ is Serve,
{
}

/// Two files can be compared if and only if both exist. Of those that do not, the first is named.
pub proof fn law_missing_files_are_named(
    current: Seq<char>,
    current_exists: bool,
    base: Seq<char>,
    base_exists: bool,
)
    ensures
        ({
            let error = missing(current, current_exists, base, base_exists);
            &&& error is None <==> current_exists && base_exists
            &&& !current_exists ==> error == Some(
                "Error: Current WASM file not found: "@ + current,
            )
            &&& current_exists && !base_exists ==> error == Some(
                "Error: Base WASM file not found: "@ + base,
            )
        }),
{
}

} // verus!
