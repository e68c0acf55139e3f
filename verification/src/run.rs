//! Resolving a command issued inside a project to the argument vector that
//! replaces the current process, and the environment it runs in.

use vstd::prelude::*;
use crate::bytes::{copy_texts, followed_by, texts};
use crate::environ::{activate, activated_env, bindings, EnvVar};
use crate::listing::{is_listing, list_scripts};
use crate::paths::{join, join_path};
use crate::script::{get_script_cmd, script_for, Script, ScriptEntry};

verus! {

/// The byte between the directories of a search path, `:`.
pub const PATH_SEPARATOR: u8 = 58;

/// The error number with which the system reports that a file does not exist.
pub const ENOENT: i32 = 2;

/// What the user asked `run` for.
#[derive(Clone, Debug, PartialEq, Eq)]
pub struct Args {
    /// List all commands.
    pub list: bool,
    /// The command to run, followed by its arguments.
    pub cmd: Option<Vec<Vec<u8>>>,
}

/// A process replacement that is ready to be made.
#[derive(Clone, Debug, PartialEq, Eq)]
pub struct ExecutionRequest {
    /// The command name as the user gave it.
    pub short_name: Vec<u8>,
    /// The arguments of the new process image; the first is the program.
    pub argv: Vec<Vec<u8>>,
    /// The value of `VIRTUAL_ENV`.
    pub virtual_env: Vec<u8>,
    /// The value of `PATH`.
    pub search_path: Vec<u8>,
}

impl ExecutionRequest {
    /// The environment of the new process, given that of the current one:
    /// `VIRTUAL_ENV` and `PATH` are set, `PYTHONHOME` is removed, the rest
    /// stays.
    pub fn environment(&self, env: &Vec<EnvVar>) -> (out: Vec<EnvVar>)
        ensures
            bindings(out@) == activated_env(bindings(env@), self.virtual_env@, self.search_path@),
    {
        activate(env, &self.virtual_env, &self.search_path)
    }
}

/// What `run` does next.
#[derive(Clone, Debug, PartialEq, Eq)]
pub enum RunAction {
    /// Print these lines.
    List(Vec<Vec<u8>>),
    /// Set `VIRTUAL_ENV` and `PATH`, remove `PYTHONHOME`, and replace the
    /// process.
    Replace(ExecutionRequest),
}

/// Why a process replacement failed.
#[derive(Clone, Debug, PartialEq, Eq)]
pub enum RunError {
    /// The program does not exist; holds the command name as the user gave it.
    ScriptNotFound(Vec<u8>),
    /// Any other failure, by its error number.
    Os(i32),
}

/// The script behind a reference, if any.
pub open spec fn owned(script: Option<&Script>) -> Option<Script> {
    match script {
        Some(s) => Some(*s),
        None => None,
    }
}

/// The file whose existence decides how an alias is resolved: the first
/// argument of a non-empty alias, joined to the environment's bin directory.
pub open spec fn probe_path(script: Option<Script>, bin: Seq<u8>) -> Option<Seq<u8>> {
    match script {
        Some(Script::Cmd(parts)) => if parts.len() > 0 {
            Some(join(bin, parts[0]@))
        } else {
            None
        },
        _ => None,
    }
}

/// The final argument vector for the command `args`, whose first element is
/// the command name. A non-empty alias stands in for the name, its first
/// argument resolved inside `bin` where that file exists; a passthrough name
/// is resolved inside `bin`; anything else is left as it is.
pub open spec fn resolved(
    script: Option<Script>,
    args: Seq<Seq<u8>>,
    bin: Seq<u8>,
    target_is_file: bool,
) -> Seq<Seq<u8>> {
    match script {
        Some(Script::Cmd(parts)) => if parts.len() == 0 {
            args
        } else if target_is_file {
            seq![join(bin, parts[0]@)] + texts(parts@).skip(1) + args.skip(1)
        } else {
            texts(parts@) + args.skip(1)
        },
        Some(Script::External(_)) => seq![join(bin, args[0])] + args.skip(1),
        None => args,
    }
}

/// The arguments that can be handed to the system: those without a zero byte,
/// in their order.
pub open spec fn representable(args: Seq<Seq<u8>>) -> Seq<Seq<u8>>
    decreases args.len(),
{
    if args.len() == 0 {
        Seq::empty()
    } else if args.last().contains(0u8) {
        representable(args.drop_last())
    } else {
        representable(args.drop_last()).push(args.last())
    }
}

/// The search path with `bin` in front: `bin`, a colon and the path so far,
/// or `bin` alone where there was none.
pub open spec fn activated(bin: Seq<u8>, search_path: Option<Seq<u8>>) -> Seq<u8> {
    match search_path {
        Some(rest) => bin.push(PATH_SEPARATOR) + rest,
        None => bin,
    }
}

/// However a command is resolved, it keeps a program to run, and the
/// arguments that followed the command name follow unchanged at the end.
pub proof fn trailing_arguments_are_kept(
    script: Option<Script>,
    args: Seq<Seq<u8>>,
    bin: Seq<u8>,
    target_is_file: bool,
)
    requires
        args.len() > 0,
    ensures
        ({
            let argv = resolved(script, args, bin, target_is_file);
            &&& argv.len() >= args.len()
            &&& argv.skip(argv.len() - (args.len() - 1)) == args.skip(1)
        }),
{
    let argv = resolved(script, args, bin, target_is_file);
    let tail = args.skip(1);
    match script {
        Some(Script::Cmd(parts)) => {
            if parts.len() == 0 {
                assert(argv.skip(1) =~= tail);
            } else if target_is_file {
                let head = seq![join(bin, parts[0]@)] + texts(parts@).skip(1);
                assert(argv == head + tail);
                assert((head + tail).skip(head.len() as int) =~= tail);
            } else {
                let head = texts(parts@);
                assert((head + tail).skip(head.len() as int) =~= tail);
            }
        },
        Some(Script::External(_)) => {
            let head = seq![join(bin, args[0])];
            assert((head + tail).skip(head.len() as int) =~= tail);
        },
        None => {
            assert(argv.skip(1) =~= tail);
        },
    }
}

/// The file to look for before `resolve` is called.
pub fn script_target(script: Option<&Script>, bin: &Vec<u8>) -> (target: Option<Vec<u8>>)
    ensures
        match target {
            Some(path) => probe_path(owned(script), bin@) == Some(path@),
            None => probe_path(owned(script), bin@) is None,
        },
{
    match script {
        Some(Script::Cmd(parts)) => {
            if parts.len() > 0 {
                Some(join_path(bin, &parts[0]))
            } else {
                None
            }
        },
        _ => None,
    }
}

/// Puts the elements of `src` from position `from` on behind `out`.
fn append_from(out: &mut Vec<Vec<u8>>, src: &Vec<Vec<u8>>, from: usize)
    requires
        from <= src.len(),
    ensures
        texts(final(out)@) == texts(old(out)@) + texts(src@).skip(from as int),
{
    let mut i: usize = from;
    while i < src.len()
        invariant
            from <= i,
            i <= src.len(),
            texts(out@) == texts(old(out)@) + texts(src@).subrange(from as int, i as int),
        decreases src.len() - i,
    {
        let ghost before = out@;
        out.push(src[i].clone());
        proof {
            assert(texts(out@) =~= texts(before).push(src@[i as int]@));
            assert(texts(src@).subrange(from as int, i + 1) =~= texts(src@).subrange(
                from as int,
                i as int,
            ).push(src@[i as int]@));
        }
        i += 1;
    }
    proof {
        assert(texts(src@).subrange(from as int, src@.len() as int) =~= texts(src@).skip(from as int));
    }
}

/// Computes the final argument vector of a command from what the script
/// table defines for its name.
pub fn resolve(
    script: Option<&Script>,
    args: &Vec<Vec<u8>>,
    bin: &Vec<u8>,
    target_is_file: bool,
) -> (argv: Vec<Vec<u8>>)
    requires
        args.len() > 0,
    ensures
        texts(argv@) == resolved(owned(script), texts(args@), bin@, target_is_file),
{
    match script {
        Some(Script::Cmd(parts)) => {
            if parts.len() == 0 {
                copy_texts(args)
            } else if target_is_file {
                let mut argv: Vec<Vec<u8>> = Vec::new();
                argv.push(join_path(bin, &parts[0]));
                proof {
                    assert(texts(argv@) =~= seq![join(bin@, parts@[0]@)]);
                }
                append_from(&mut argv, parts, 1);
                append_from(&mut argv, args, 1);
                argv
            } else {
                let mut argv = copy_texts(parts);
                append_from(&mut argv, args, 1);
                argv
            }
        },
        Some(Script::External(_)) => {
            let mut argv: Vec<Vec<u8>> = Vec::new();
            argv.push(join_path(bin, &args[0]));
            proof {
                assert(texts(argv@) =~= seq![join(bin@, args@[0]@)]);
            }
            append_from(&mut argv, args, 1);
            argv
        },
        None => copy_texts(args),
    }
}

/// Whether a byte string holds a zero byte.
pub fn has_nul(arg: &Vec<u8>) -> (found: bool)
    ensures
        found == arg@.contains(0u8),
{
    let mut i: usize = 0;
    while i < arg.len()
        invariant
            i <= arg.len(),
            forall|j: int| 0 <= j < i ==> arg@[j] != 0u8,
        decreases arg.len() - i,
    {
        if arg[i] == 0u8 {
            return true;
        }
        i += 1;
    }
    false
}

/// Drops the arguments that the system cannot take.
pub fn native_args(args: &Vec<Vec<u8>>) -> (out: Vec<Vec<u8>>)
    ensures
        texts(out@) == representable(texts(args@)),
{
    let mut out: Vec<Vec<u8>> = Vec::new();
    let mut i: usize = 0;
    proof {
        assert(texts(out@) =~= representable(texts(args@).take(0)));
    }
    while i < args.len()
        invariant
            i <= args.len(),
            texts(out@) == representable(texts(args@).take(i as int)),
        decreases args.len() - i,
    {
        proof {
            let now = texts(args@).take(i + 1);
            assert(now.drop_last() =~= texts(args@).take(i as int));
            assert(now.last() == args@[i as int]@);
        }
        if !has_nul(&args[i]) {
            let ghost before = out@;
            out.push(args[i].clone());
            proof {
                assert(texts(out@) =~= texts(before).push(args@[i as int]@));
            }
        }
        i += 1;
    }
    proof {
        assert(texts(args@).take(args@.len() as int) =~= texts(args@));
    }
    out
}

/// The value of `PATH` for the new process.
pub fn activated_path(bin: &Vec<u8>, search_path: Option<&Vec<u8>>) -> (out: Vec<u8>)
    ensures
        out@ == activated(
            bin@,
            match search_path {
                Some(p) => Some(p@),
                None => None,
            },
        ),
{
    match search_path {
        Some(rest) => {
            let mut out = bin.clone();
            out.push(PATH_SEPARATOR);
            followed_by(&out, rest)
        },
        None => bin.clone(),
    }
}

/// Whether `request` is the process replacement for the command `args`
/// under `table`.
pub open spec fn is_request_for(
    request: ExecutionRequest,
    args: Seq<Seq<u8>>,
    table: Seq<ScriptEntry>,
    venv: Seq<u8>,
    bin: Seq<u8>,
    target_is_file: bool,
    search_path: Option<Seq<u8>>,
) -> bool {
    &&& request.short_name@ == args[0]
    &&& texts(request.argv@) == representable(
        resolved(script_for(table, args[0]), args, bin, target_is_file),
    )
    &&& request.argv@.len() > 0
    &&& request.argv@[0]@ == resolved(script_for(table, args[0]), args, bin, target_is_file)[0]
    &&& request.virtual_env@ == venv
    &&& request.search_path@ == activated(bin, search_path)
}

/// The file whose existence `execute` must be told: none where the commands
/// are listed or the command is no non-empty alias.
pub fn probe(cmd: &Args, table: &Vec<ScriptEntry>, bin: &Vec<u8>) -> (target: Option<Vec<u8>>)
    ensures
        match cmd.cmd {
            Some(args) if !cmd.list && args.len() > 0 => match target {
                Some(path) => probe_path(script_for(table@, args@[0]@), bin@) == Some(path@),
                None => probe_path(script_for(table@, args@[0]@), bin@) is None,
            },
            _ => target is None,
        },
{
    match &cmd.cmd {
        Some(args) => {
            if !cmd.list && args.len() > 0 {
                script_target(get_script_cmd(table, &args[0]), bin)
            } else {
                None
            }
        },
        None => None,
    }
}

/// The program of a resolved command, its first argument, stays the first
/// of the arguments handed to the system where it holds no zero byte.
pub proof fn program_is_kept(args: Seq<Seq<u8>>)
    requires
        args.len() > 0,
        !args[0].contains(0u8),
    ensures
        representable(args).len() > 0,
        representable(args)[0] == args[0],
    decreases args.len(),
{
    let front = args.drop_last();
    if args.len() > 1 {
        program_is_kept(front);
        assert(front[0] == args[0]);
    } else {
        assert(representable(front) =~= Seq::<Seq<u8>>::empty());
        assert(args.last() == args[0]);
        assert(representable(args) == representable(front).push(args.last()));
    }
}

/// Whether the program of the command `args` can be named to the system:
/// whether the first argument of the resolved command holds no zero byte.
pub open spec fn has_program(
    args: Seq<Seq<u8>>,
    table: Seq<ScriptEntry>,
    bin: Seq<u8>,
    target_is_file: bool,
) -> bool {
    !resolved(script_for(table, args[0]), args, bin, target_is_file)[0].contains(0u8)
}

/// Decides what `run` does: list the project's commands where that was asked
/// or no command was given, else replace the process with the resolved
/// command. `target_is_file` says whether the file that `probe` names exists.
/// A program whose name holds a zero byte cannot exist: the command is then
/// reported as not found, under the name the user gave.
pub fn execute(
    cmd: &Args,
    table: &Vec<ScriptEntry>,
    venv: &Vec<u8>,
    bin: &Vec<u8>,
    target_is_file: bool,
    search_path: Option<&Vec<u8>>,
) -> (outcome: Result<RunAction, RunError>)
    requires
        !cmd.list ==> (cmd.cmd matches Some(args) ==> args.len() > 0),
    ensures
        match cmd.cmd {
            Some(args) if !cmd.list => if has_program(texts(args@), table@, bin@, target_is_file) {
                outcome matches Ok(RunAction::Replace(request)) && is_request_for(
                    request,
                    texts(args@),
                    table@,
                    venv@,
                    bin@,
                    target_is_file,
                    match search_path {
                        Some(p) => Some(p@),
                        None => None,
                    },
                )
            } else {
                outcome matches Err(RunError::ScriptNotFound(name)) && name@ == args@[0]@
            },
            _ => outcome matches Ok(RunAction::List(lines)) && is_listing(table@, texts(lines@)),
        },
{
    match &cmd.cmd {
        Some(args) => {
            if cmd.list {
                Ok(RunAction::List(list_scripts(table)))
            } else {
                let script = get_script_cmd(table, &args[0]);
                let argv = resolve(script, args, bin, target_is_file);
                proof {
                    trailing_arguments_are_kept(
                        script_for(table@, args@[0]@),
                        texts(args@),
                        bin@,
                        target_is_file,
                    );
                    assert(texts(argv@)[0] == argv@[0]@);
                }
                if has_nul(&argv[0]) {
                    return Err(RunError::ScriptNotFound(args[0].clone()));
                }
                let native = native_args(&argv);
                proof {
                    program_is_kept(texts(argv@));
                    assert(texts(native@)[0] == native@[0]@);
                }
                Ok(
                    RunAction::Replace(
                        ExecutionRequest {
                            short_name: args[0].clone(),
                            argv: native,
                            virtual_env: venv.clone(),
                            search_path: activated_path(bin, search_path),
                        },
                    ),
                )
            }
        },
        None => Ok(RunAction::List(list_scripts(table))),
    }
}

/// Names the failure of a process replacement: a missing program is reported
/// under the command name the user gave, anything else by its error number.
pub fn exec_failure(request: &ExecutionRequest, errno: i32) -> (error: RunError)
    ensures
        errno == ENOENT ==> (error matches RunError::ScriptNotFound(name) && name@
            == request.short_name@),
        errno != ENOENT ==> error == RunError::Os(errno),
{
    if errno == ENOENT {
        RunError::ScriptNotFound(request.short_name.clone())
    } else {
        RunError::Os(errno)
    }
}

} // verus!
