//! Operating mode and invocations of the control program that have not been run.

use vstd::prelude::*;

verus! {

/// The scope an adapter works in. It is chosen when the adapter is built and
/// never changes afterwards.
#[derive(Clone, Copy, Debug, PartialEq, Eq, Structural)]
pub enum OperatingMode {
    /// Units of the whole host.
    System,
    /// Units of the invoking user.
    User,
}

/// What a `CommandInvocation` stands for in contracts.
pub struct CommandView {
    pub program: Seq<char>,
    pub args: Seq<Seq<char>>,
}

/// A call of an external program that has been assembled and not run.
/// Running it and reading its exit status is left to the caller.
#[derive(Clone, Debug, PartialEq, Eq)]
pub struct CommandInvocation {
    /// Name of the program.
    pub program: String,
    /// Arguments, in the order in which they are passed.
    pub args: Vec<String>,
}

impl View for CommandInvocation {
    type V = CommandView;

    open spec fn view(&self) -> CommandView {
        CommandView { program: self.program@, args: self.args.deep_view() }
    }
}

impl DeepView for CommandInvocation {
    type V = CommandView;

    open spec fn deep_view(&self) -> CommandView {
        self@
    }
}

/// Name of the control program of the service manager.
pub open spec fn control_program() -> Seq<char> {
    "systemctl"@
}

/// The flag that selects the per-user scope.
pub open spec fn scope_flag() -> Seq<char> {
    "--user"@
}

/// Arguments that every invocation starts with: the scope flag in user mode,
/// nothing in system mode.
pub open spec fn scope_args(mode: OperatingMode) -> Seq<Seq<char>> {
    match mode {
        OperatingMode::User => seq![scope_flag()],
        OperatingMode::System => seq![],
    }
}

/// The invocation of the control program in `mode` with the arguments `args`
/// behind the scope arguments.
pub open spec fn invocation(mode: OperatingMode, args: Seq<Seq<char>>) -> CommandView {
    CommandView { program: control_program(), args: scope_args(mode) + args }
}

/// Whether an invocation starts with the scope flag.
pub open spec fn has_scope_flag(cmd: CommandView) -> bool {
    cmd.args.len() > 0 && cmd.args[0] == scope_flag()
}

impl CommandInvocation {
    /// The invocation of the control program in `mode` with `args` behind the
    /// scope arguments. The arguments are passed on as they are.
    pub fn systemctl(mode: OperatingMode, args: Vec<&str>) -> (cmd: CommandInvocation)
        ensures
            cmd@ == invocation(mode, args.deep_view()),
    {
        let mut all: Vec<String> = Vec::new();
        match mode {
            OperatingMode::User => {
                all.push("--user".to_owned());
            },
            OperatingMode::System => {},
        }
        let n: usize = args.len();
        let mut i: usize = 0;
        while i < n
            invariant
                i <= n,
                n == args.len(),
                all.deep_view() == scope_args(mode) + args.deep_view().take(i as int),
            decreases n - i,
        {
            let ghost before = all.deep_view();
            all.push(args[i].to_owned());
            assert(all.deep_view() =~= before.push(args[i as int]@));
            i += 1;
        }
        assert(args.deep_view().take(n as int) =~= args.deep_view());
        CommandInvocation { program: "systemctl".to_owned(), args: all }
    }
}

/// The verbs of the lifecycle operations: seven that take the name of a
/// service, and `daemon-reload`, which takes none.
pub open spec fn is_lifecycle_verb(verb: Seq<char>) -> bool {
    ||| verb == "start"@
    ||| verb == "stop"@
    ||| verb == "restart"@
    ||| verb == "reload"@
    ||| verb == "enable"@
    ||| verb == "disable"@
    ||| verb == "status"@
    ||| verb == "daemon-reload"@
}

/// The invocation of a lifecycle operation starts with the scope flag in user
/// mode and in no other mode, whatever follows the verb.
pub proof fn lemma_scope_flag_marks_user_mode(
    mode: OperatingMode,
    verb: Seq<char>,
    target: Seq<Seq<char>>,
)
    requires
        is_lifecycle_verb(verb),
    ensures
        has_scope_flag(invocation(mode, seq![verb] + target)) <==> mode == OperatingMode::User,
        invocation(mode, seq![verb] + target).args.len() == target.len() + (if mode
            == OperatingMode::User {
            2nat
        } else {
            1nat
        }),
{
    reveal_strlit("--user");
    reveal_strlit("start");
    reveal_strlit("stop");
    reveal_strlit("restart");
    reveal_strlit("reload");
    reveal_strlit("enable");
    reveal_strlit("disable");
    reveal_strlit("status");
    reveal_strlit("daemon-reload");
    assert(verb[0] != '-');
}

} // verus!
