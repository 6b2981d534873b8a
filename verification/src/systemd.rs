//! The adapter: one operating mode, one services directory, and a builder for
//! every intent the service manager understands.

use vstd::prelude::*;
use vstd::string::StringExecFns;
use crate::action::{FileAction, FileActionView};
use crate::command::{
    has_scope_flag, invocation, lemma_scope_flag_marks_user_mode, CommandInvocation, OperatingMode,
};
use crate::listing::{started, Listing};
use crate::strings::chars_of;
use crate::text::unit_text;
pub use crate::unit::Unit;

verus! {

/// Why an adapter could not be built.
#[derive(Clone, Copy, Debug, PartialEq, Eq, Structural)]
pub enum AdapterError {
    /// User mode was asked for and no home directory is known.
    HomeUnavailable,
}

/// Why a service has no unit file.
#[derive(Clone, Copy, Debug, PartialEq, Eq, Structural)]
pub enum NameError {
    /// The name of the service holds a path separator, so that its unit file
    /// would not lie in the services directory.
    HoldsSeparator,
}

/// Directory that holds the unit files of the whole host.
pub open spec fn system_services_dir() -> Seq<char> {
    "/etc/systemd/system"@
}

/// Where the unit files of a user lie below the user's home directory.
pub open spec fn user_services_suffix() -> Seq<char> {
    "/.config/systemd/user"@
}

/// The services directory of `mode`; `home` counts in user mode only.
pub open spec fn services_dir(mode: OperatingMode, home: Seq<char>) -> Seq<char> {
    match mode {
        OperatingMode::System => system_services_dir(),
        OperatingMode::User => home + user_services_suffix(),
    }
}

/// Name of the target that a unit is wanted by so as to start at boot.
pub open spec fn boot_target(mode: OperatingMode) -> Seq<char> {
    match mode {
        OperatingMode::System => "multi-user.target"@,
        OperatingMode::User => "default.target"@,
    }
}

/// The mode that the flag given at construction selects.
pub open spec fn mode_of(user_mode: bool) -> OperatingMode {
    if user_mode {
        OperatingMode::User
    } else {
        OperatingMode::System
    }
}

/// Whether a path ends with the path separator.
pub open spec fn ends_with_separator(path: Seq<char>) -> bool {
    path.len() > 0 && path.last() == '/'
}

/// Whether `name` holds no path separator.
pub open spec fn plain_name(name: Seq<char>) -> bool {
    forall|i: int| 0 <= i < name.len() ==> name[i] != '/'
}

/// The path of the unit file of `service` for the services directory `dir`:
/// the directory, a separator, the name of the service and the ending of
/// unit files.
pub open spec fn unit_path(dir: Seq<char>, service: Seq<char>) -> Seq<char> {
    dir + "/"@ + service + ".service"@
}

/// Whether `path` names something directly in the directory `dir`: it is
/// `dir`, one separator, and a name that is not empty and holds no
/// separator.
pub open spec fn lies_directly_in(path: Seq<char>, dir: Seq<char>) -> bool {
    &&& path.len() > dir.len() + 1
    &&& path.take(dir.len() as int) == dir
    &&& path[dir.len() as int] == '/'
    &&& plain_name(path.skip(dir.len() as int + 1))
}

/// The unit file of a service whose name holds no path separator lies
/// directly in the services directory.
pub proof fn lemma_unit_file_lies_in_directory(dir: Seq<char>, service: Seq<char>)
    requires
        plain_name(service),
    ensures
        lies_directly_in(unit_path(dir, service), dir),
{
    reveal_strlit("/");
    reveal_strlit(".service");
    let path = unit_path(dir, service);
    let name = service + ".service"@;
    assert(path.take(dir.len() as int) =~= dir);
    assert(path.skip(dir.len() as int + 1) =~= name);
    assert forall|i: int| 0 <= i < name.len() implies name[i] != '/' by {
        if i < service.len() {
            assert(name[i] == service[i]);
        } else {
            assert(name[i] == ".service"@[i - service.len()]);
        }
    }
}

/// Whether `name` holds no path separator.
pub fn is_plain_name(name: &str) -> (plain: bool)
    ensures
        plain == plain_name(name@),
{
    let chars = chars_of(name);
    let n: usize = chars.len();
    let mut i: usize = 0;
    while i < n
        invariant
            i <= n,
            n == chars@.len(),
            chars@ == name@,
            forall|j: int| 0 <= j < i ==> chars@[j] != '/',
        decreases n - i,
    {
        if chars[i] == '/' {
            return false;
        }
        i += 1;
    }
    true
}

/// Adapter for one service manager scope.
#[derive(Debug)]
pub struct Systemd {
    mode: OperatingMode,
    services_path: String,
    /// Name of the default boot target of the adapter's mode.
    pub default_target: String,
}

impl Systemd {
    /// The mode the adapter was built with.
    pub closed spec fn mode(&self) -> OperatingMode {
        self.mode
    }

    /// The directory the adapter keeps unit files in.
    pub closed spec fn services_path(&self) -> Seq<char> {
        self.services_path@
    }

    /// The name held in the field `default_target`.
    pub closed spec fn default_target(&self) -> Seq<char> {
        self.default_target@
    }

    /// What `new` establishes: the services directory has no trailing
    /// separator and the default target is the one of the mode.
    pub open spec fn wf(&self) -> bool {
        &&& !ends_with_separator(self.services_path())
        &&& self.default_target() == boot_target(self.mode())
    }

    /// Builds the adapter for system mode (`user_mode` false) or user mode
    /// (`user_mode` true). `home` is the home directory of the invoking user,
    /// if it is known; user mode cannot do without it, system mode ignores it.
    pub fn new(user_mode: bool, home: Option<String>) -> (made: Result<Systemd, AdapterError>)
        ensures
            made is Err <==> user_mode && home is None,
            made is Err ==> made == Err::<Systemd, AdapterError>(AdapterError::HomeUnavailable),
            made matches Ok(adapter) ==> {
                &&& adapter.mode() == mode_of(user_mode)
                &&& adapter.services_path() == services_dir(
                    mode_of(user_mode),
                    if home is Some { home->0@ } else { Seq::<char>::empty() },
                )
                &&& adapter.wf()
            },
    {
        proof {
            reveal_strlit("/etc/systemd/system");
            reveal_strlit("/.config/systemd/user");
        }
        if user_mode {
            match home {
                Some(dir) => {
                    let services_path = dir.concat("/.config/systemd/user");
                    Ok(
                        Systemd {
                            mode: OperatingMode::User,
                            services_path,
                            default_target: "default.target".to_owned(),
                        },
                    )
                },
                None => Err(AdapterError::HomeUnavailable),
            }
        } else {
            Ok(
                Systemd {
                    mode: OperatingMode::System,
                    services_path: "/etc/systemd/system".to_owned(),
                    default_target: "multi-user.target".to_owned(),
                },
            )
        }
    }

    /// The mode the adapter was built with.
    pub fn operating_mode(&self) -> (mode: OperatingMode)
        ensures
            mode == self.mode(),
    {
        self.mode
    }

    /// The name held in the field `default_target`.
    pub fn default_target_name(&self) -> (name: &str)
        ensures
            name@ == self.default_target(),
    {
        self.default_target.as_str()
    }

    /// The directory the adapter keeps unit files in.
    pub fn services_directory(&self) -> (path: &str)
        ensures
            path@ == self.services_path(),
    {
        self.services_path.as_str()
    }

    /// The invocation of the control program with `args` behind the scope
    /// arguments of the adapter's mode. Every lifecycle operation is built
    /// with it; the arguments are passed on as they are.
    pub fn systemctl(&self, args: Vec<&str>) -> (cmd: CommandInvocation)
        ensures
            cmd@ == invocation(self.mode(), args.deep_view()),
    {
        CommandInvocation::systemctl(self.mode, args)
    }

    /// The path of the unit file of `service`.
    fn unit_file(&self, service: &str) -> (path: String)
        ensures
            path@ == unit_path(self.services_path(), service@),
    {
        let mut path = self.services_path.clone();
        path.append("/");
        path.append(service);
        path.append(".service");
        path
    }

    /// What makes the services directory ready for unit files: it is to be
    /// created, with every directory above it that is missing. The action is
    /// the same however often it is asked for.
    pub fn init(&self) -> (action: FileAction)
        ensures
            action@ == (FileActionView::CreateDirAll { path: self.services_path() }),
    {
        FileAction::CreateDirAll { path: self.services_path.clone() }
    }

    /// What installs `unit` as the unit definition of `service`: its text is
    /// to be written to the unit file of `service`, in place of what that
    /// file may hold. The file lies directly in the services directory; a
    /// name that holds a path separator would lead out of it and is refused.
    pub fn install_service(&self, service: &str, unit: &Unit) -> (action: Result<
        FileAction,
        NameError,
    >)
        ensures
            action is Ok <==> plain_name(service@),
            action matches Ok(write) ==> {
                &&& write@ == (FileActionView::WriteFile {
                    path: unit_path(self.services_path(), service@),
                    contents: unit_text(unit@),
                })
                &&& lies_directly_in(write@.path(), self.services_path())
            },
            action matches Err(error) ==> error == NameError::HoldsSeparator,
    {
        if !is_plain_name(service) {
            return Err(NameError::HoldsSeparator);
        }
        proof {
            lemma_unit_file_lies_in_directory(self.services_path(), service@);
        }
        let path = self.unit_file(service);
        let contents = unit.render();
        Ok(FileAction::WriteFile { path, contents })
    }

    /// What removes the unit definition of `service`: its unit file is to be
    /// removed. The file lies directly in the services directory; a name
    /// that holds a path separator would lead out of it and is refused.
    pub fn uninstall_service(&self, service: &str) -> (action: Result<FileAction, NameError>)
        ensures
            action is Ok <==> plain_name(service@),
            action matches Ok(removal) ==> {
                &&& removal@ == (FileActionView::RemoveFile {
                    path: unit_path(self.services_path(), service@),
                })
                &&& lies_directly_in(removal@.path(), self.services_path())
            },
            action matches Err(error) ==> error == NameError::HoldsSeparator,
    {
        if !is_plain_name(service) {
            return Err(NameError::HoldsSeparator);
        }
        proof {
            lemma_unit_file_lies_in_directory(self.services_path(), service@);
        }
        Ok(FileAction::RemoveFile { path: self.unit_file(service) })
    }

    /// The listing of the services in the adapter's scope, at its start: it
    /// says what to ask of the service manager, takes the answers, and ends
    /// with the records.
    pub fn get_services(&self) -> (listing: Listing)
        ensures
            listing@ == started(self.mode()),
    {
        Listing::begin(self.mode)
    }

    /// The invocation that starts `service`.
    pub fn start(&self, service: &str) -> (cmd: CommandInvocation)
        ensures
            cmd@ == invocation(self.mode(), seq!["start"@, service@]),
            has_scope_flag(cmd@) <==> self.mode() == OperatingMode::User,
    {
        let args: Vec<&str> = vec!["start", service];
        proof {
            assert(args.deep_view() =~= seq!["start"@, service@]);
            lemma_scope_flag_marks_user_mode(self.mode(), "start"@, seq![service@]);
        }
        self.systemctl(args)
    }

    /// The invocation that stops `service`.
    pub fn stop(&self, service: &str) -> (cmd: CommandInvocation)
        ensures
            cmd@ == invocation(self.mode(), seq!["stop"@, service@]),
            has_scope_flag(cmd@) <==> self.mode() == OperatingMode::User,
    {
        let args: Vec<&str> = vec!["stop", service];
        proof {
            assert(args.deep_view() =~= seq!["stop"@, service@]);
            lemma_scope_flag_marks_user_mode(self.mode(), "stop"@, seq![service@]);
        }
        self.systemctl(args)
    }

    /// The invocation that restarts `service`.
    pub fn restart(&self, service: &str) -> (cmd: CommandInvocation)
        ensures
            cmd@ == invocation(self.mode(), seq!["restart"@, service@]),
            has_scope_flag(cmd@) <==> self.mode() == OperatingMode::User,
    {
        let args: Vec<&str> = vec!["restart", service];
        proof {
            assert(args.deep_view() =~= seq!["restart"@, service@]);
            lemma_scope_flag_marks_user_mode(self.mode(), "restart"@, seq![service@]);
        }
        self.systemctl(args)
    }

    /// The invocation that makes `service` read its configuration anew.
    pub fn reload(&self, service: &str) -> (cmd: CommandInvocation)
        ensures
            cmd@ == invocation(self.mode(), seq!["reload"@, service@]),
            has_scope_flag(cmd@) <==> self.mode() == OperatingMode::User,
    {
        let args: Vec<&str> = vec!["reload", service];
        proof {
            assert(args.deep_view() =~= seq!["reload"@, service@]);
            lemma_scope_flag_marks_user_mode(self.mode(), "reload"@, seq![service@]);
        }
        self.systemctl(args)
    }

    /// The invocation that enables `service`.
    pub fn enable(&self, service: &str) -> (cmd: CommandInvocation)
        ensures
            cmd@ == invocation(self.mode(), seq!["enable"@, service@]),
            has_scope_flag(cmd@) <==> self.mode() == OperatingMode::User,
    {
        let args: Vec<&str> = vec!["enable", service];
        proof {
            assert(args.deep_view() =~= seq!["enable"@, service@]);
            lemma_scope_flag_marks_user_mode(self.mode(), "enable"@, seq![service@]);
        }
        self.systemctl(args)
    }

    /// The invocation that disables `service`.
    pub fn disable(&self, service: &str) -> (cmd: CommandInvocation)
        ensures
            cmd@ == invocation(self.mode(), seq!["disable"@, service@]),
            has_scope_flag(cmd@) <==> self.mode() == OperatingMode::User,
    {
        let args: Vec<&str> = vec!["disable", service];
        proof {
            assert(args.deep_view() =~= seq!["disable"@, service@]);
            lemma_scope_flag_marks_user_mode(self.mode(), "disable"@, seq![service@]);
        }
        self.systemctl(args)
    }

    /// The invocation that reports the state of `service`.
    pub fn status(&self, service: &str) -> (cmd: CommandInvocation)
        ensures
            cmd@ == invocation(self.mode(), seq!["status"@, service@]),
            has_scope_flag(cmd@) <==> self.mode() == OperatingMode::User,
    {
        let args: Vec<&str> = vec!["status", service];
        proof {
            assert(args.deep_view() =~= seq!["status"@, service@]);
            lemma_scope_flag_marks_user_mode(self.mode(), "status"@, seq![service@]);
        }
        self.systemctl(args)
    }

    /// The invocation that makes the service manager read all unit files
    /// anew.
    pub fn daemon_reload(&self) -> (cmd: CommandInvocation)
        ensures
            cmd@ == invocation(self.mode(), seq!["daemon-reload"@]),
            has_scope_flag(cmd@) <==> self.mode() == OperatingMode::User,
    {
        let args: Vec<&str> = vec!["daemon-reload"];
        proof {
            assert(args.deep_view() =~= seq!["daemon-reload"@]);
            lemma_scope_flag_marks_user_mode(self.mode(), "daemon-reload"@, Seq::empty());
        }
        self.systemctl(args)
    }
}

} // verus!
