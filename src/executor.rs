//! The decisions around running one command: which tool it needs, whether it
//! runs here, how a pipeline splits into stages, and what a finished process
//! means.
use vstd::prelude::*;
use vstd::string::StringExecFns;
use crate::error::{ExecutionError, error_detail};
use crate::sanitize::{get_tool_from_command, tool_of};
use crate::text::{contains_seq, contains_str, str_eq};
use crate::tokenize::{command_words, parse_command_line, trim_bounds, trimmed, views};

verus! {

/// Tools that need Linux.
pub open spec fn linux_only(tool: Seq<char>) -> bool {
    tool == "setoolkit"@ || tool == "msfconsole"@
}

/// Finds the tool that `command` runs and refuses it where it cannot run:
/// an empty command is a parsing error; a Linux-only tool on Windows is an
/// unsupported-platform error that names it.
pub fn check_tool(command: &str, windows: bool) -> (r: Result<String, ExecutionError>)
    ensures
        match r {
            Ok(t) => tool_of(command@) == Some(t@) && !(windows && linux_only(t@)),
            Err(e) => match tool_of(command@) {
                None => e is CommandParsingError && error_detail(e)
                    == "Cannot determine tool from empty command"@,
                Some(t) => windows && linux_only(t) && e is UnsupportedPlatform && error_detail(e)
                    == t + " requires Linux"@,
            },
        },
{
    let tool = match get_tool_from_command(command) {
        Some(t) => t,
        None => {
            return Err(
                ExecutionError::CommandParsingError(
                    String::from_str("Cannot determine tool from empty command"),
                ),
            );
        },
    };
    if windows && (str_eq(tool.as_str(), "setoolkit") || str_eq(tool.as_str(), "msfconsole")) {
        let msg = String::from_str(tool.as_str()).concat(" requires Linux");
        return Err(ExecutionError::UnsupportedPlatform(msg));
    }
    Ok(tool)
}

/// Whether a command must be run as an emulated pipeline: only on Windows,
/// and only when it holds a pipe.
pub fn needs_pipeline_emulation(command: &str, windows: bool) -> (r: bool)
    ensures
        r == (windows && contains_seq(command@, "|"@)),
{
    windows && contains_str(command, "|")
}

/// The pieces of `s` between pipe characters, appended to `acc`, with `cur`
/// the piece being read.
pub open spec fn pipe_pieces_from(s: Seq<char>, cur: Seq<char>, acc: Seq<Seq<char>>) -> Seq<Seq<char>>
    decreases s.len(),
{
    if s.len() == 0 {
        acc.push(cur)
    } else if s[0] == '|' {
        pipe_pieces_from(s.drop_first(), seq![], acc.push(cur))
    } else {
        pipe_pieces_from(s.drop_first(), cur.push(s[0]), acc)
    }
}

/// The stages of a pipeline: the pieces between pipes, each trimmed. There is
/// one more stage than there are pipes.
pub open spec fn pipeline_stages(s: Seq<char>) -> Seq<Seq<char>> {
    pipe_pieces_from(s, seq![], seq![]).map_values(|p: Seq<char>| trimmed(p))
}

/// Splits a pipeline into its stages, each trimmed.
pub fn split_stages(command: &str) -> (r: Vec<String>)
    ensures
        views(r@) == pipeline_stages(command@),
{
    let n = command.unicode_len();
    let mut pieces: Vec<String> = Vec::new();
    let mut cur = String::new();
    let mut i: usize = 0;
    proof {
        assert(views(pieces@) =~= Seq::<Seq<char>>::empty());
        assert(cur@ =~= Seq::<char>::empty());
        assert(command@.subrange(0, n as int) =~= command@);
    }
    while i < n
        invariant
            n == command@.len(),
            i <= n,
            pipe_pieces_from(command@, seq![], seq![]) == pipe_pieces_from(
                command@.subrange(i as int, n as int),
                cur@,
                views(pieces@),
            ),
        decreases n - i,
    {
        let ghost rest = command@.subrange(i as int, n as int);
        assert(rest.drop_first() =~= command@.subrange(i + 1, n as int));
        let c = command.get_char(i);
        assert(rest[0] == c);
        if c == '|' {
            proof {
                assert(views(pieces@.push(cur)) =~= views(pieces@).push(cur@));
            }
            pieces.push(cur);
            cur = String::new();
            assert(cur@ =~= seq![]);
        } else {
            cur.push(c);
        }
        i = i + 1;
    }
    proof {
        assert(views(pieces@.push(cur)) =~= views(pieces@).push(cur@));
    }
    pieces.push(cur);
    assert(command@.subrange(n as int, n as int).len() == 0);
    let ghost all = views(pieces@);
    let mut stages: Vec<String> = Vec::new();
    let mut j: usize = 0;
    while j < pieces.len()
        invariant
            all == views(pieces@),
            all == pipe_pieces_from(command@, seq![], seq![]),
            j <= pieces@.len(),
            views(stages@) == all.subrange(0, j as int).map_values(|p: Seq<char>| trimmed(p)),
        decreases pieces@.len() - j,
    {
        let (a, b) = trim_bounds(pieces[j].as_str());
        let s = String::from_str(pieces[j].as_str().substring_char(a, b));
        proof {
            assert(all[j as int] == pieces@[j as int]@);
            assert(s@ == trimmed(all[j as int]));
            assert(views(stages@.push(s)) =~= views(stages@).push(s@));
            assert(all.subrange(0, j as int).map_values(|p: Seq<char>| trimmed(p)).push(s@)
                =~= all.subrange(0, j + 1).map_values(|p: Seq<char>| trimmed(p)));
            assert(views(stages@.push(s)) =~= all.subrange(0, j + 1).map_values(
                |p: Seq<char>| trimmed(p),
            ));
        }
        stages.push(s);
        j = j + 1;
    }
    assert(all.subrange(0, j as int) =~= all);
    stages
}

/// `parsed` is the program and arguments of the pipeline stage `stage`.
pub open spec fn stage_parsed(stage: Seq<char>, parsed: (String, Vec<String>)) -> bool {
    &&& command_words(stage).len() > 0
    &&& parsed.0@ == command_words(stage)[0]
    &&& views(parsed.1@) == command_words(stage).drop_first()
}

/// Splits a pipeline into stages and each stage into its program and
/// arguments, before anything runs. An empty stage (a leading, trailing or
/// doubled pipe) is a parsing error, as is a stage without a word.
pub fn parse_pipeline(command: &str) -> (r: Result<Vec<(String, Vec<String>)>, ExecutionError>)
    ensures
        ({
            let st = pipeline_stages(command@);
            match r {
                Ok(v) => {
                    &&& v@.len() == st.len()
                    &&& forall|j: int|
                        0 <= j < st.len() ==> st[j].len() > 0 && stage_parsed(st[j], #[trigger] v@[j])
                },
                Err(e) => {
                    &&& e is CommandParsingError
                    &&& if exists|j: int| 0 <= j < st.len() && (#[trigger] st[j]).len() == 0 {
                        error_detail(e) == "Empty command part in pipeline"@
                    } else {
                        &&& exists|j: int|
                            0 <= j < st.len() && command_words(#[trigger] st[j]).len() == 0
                        &&& error_detail(e) == "No command found"@
                    }
                },
            }
        }),
{
    let stages = split_stages(command);
    let ghost st = views(stages@);
    let mut k: usize = 0;
    while k < stages.len()
        invariant
            st == views(stages@),
            st == pipeline_stages(command@),
            k <= stages@.len(),
            forall|j: int| 0 <= j < k ==> st[j].len() > 0,
        decreases stages@.len() - k,
    {
        assert(st[k as int] == stages@[k as int]@);
        if stages[k].unicode_len() == 0 {
            assert(st[k as int].len() == 0);
            return Err(
                ExecutionError::CommandParsingError(
                    String::from_str("Empty command part in pipeline"),
                ),
            );
        }
        k = k + 1;
    }
    let mut parsed: Vec<(String, Vec<String>)> = Vec::new();
    let mut j: usize = 0;
    while j < stages.len()
        invariant
            st == views(stages@),
            st == pipeline_stages(command@),
            j <= stages@.len(),
            forall|m: int| 0 <= m < st.len() ==> st[m].len() > 0,
            parsed@.len() == j,
            forall|m: int| 0 <= m < j ==> stage_parsed(st[m], #[trigger] parsed@[m]),
        decreases stages@.len() - j,
    {
        assert(st[j as int] == stages@[j as int]@);
        match parse_command_line(stages[j].as_str()) {
            Ok(pair) => {
                assert(stages@[j as int]@ == st[j as int]);
                assert(command_words(st[j as int]).len() > 0);
                assert(pair.0@ == command_words(st[j as int])[0]);
                assert(views(pair.1@) == command_words(st[j as int]).drop_first());
                let ghost before = parsed@;
                parsed.push(pair);
                assert forall|m: int| 0 <= m < j + 1 implies stage_parsed(st[m], #[trigger] parsed@[m]) by {
                    if m < j {
                        assert(parsed@[m] == before[m]);
                    } else {
                        assert(parsed@[m] == pair);
                    }
                }
            },
            Err(e) => {
                assert(!exists|m: int| 0 <= m < st.len() && (#[trigger] st[m]).len() == 0);
                return Err(e);
            },
        }
        j = j + 1;
    }
    assert(st.len() == stages@.len());
    assert forall|m: int| 0 <= m < st.len() implies st[m].len() > 0 && stage_parsed(
        st[m],
        #[trigger] parsed@[m],
    ) by {}
    Ok(parsed)
}

/// What a finished process means: its standard output when it succeeded;
/// otherwise a command failure that shows the status and the error output,
/// or the standard output where the error output is blank.
pub open spec fn outcome_of(success: bool, status: Seq<char>, stdout: Seq<char>, stderr: Seq<char>) -> Result<
    Seq<char>,
    Seq<char>,
> {
    if success {
        Ok(stdout)
    } else if trimmed(stderr).len() == 0 {
        Err("Command failed with status "@ + status + ". Output:\n"@ + stdout)
    } else {
        Err("Command failed with status "@ + status + ". Error:\n"@ + stderr)
    }
}

/// Turns a finished process, given by whether it succeeded, its status
/// text and its decoded output, into the step's output or a command failure.
pub fn command_outcome(success: bool, status: &str, stdout: &str, stderr: &str) -> (r: Result<
    String,
    ExecutionError,
>)
    ensures
        match r {
            Ok(s) => outcome_of(success, status@, stdout@, stderr@) == Ok::<Seq<char>, Seq<char>>(s@),
            Err(e) => e is CommandFailure && outcome_of(success, status@, stdout@, stderr@) == Err::<
                Seq<char>,
                Seq<char>,
            >(error_detail(e)),
        },
{
    if success {
        return Ok(String::from_str(stdout));
    }
    let (a, b) = trim_bounds(stderr);
    let mut msg = String::from_str("Command failed with status ");
    msg.append(status);
    if a == b {
        msg.append(". Output:\n");
        msg.append(stdout);
    } else {
        msg.append(". Error:\n");
        msg.append(stderr);
    }
    Err(ExecutionError::CommandFailure(msg))
}

} // verus!
