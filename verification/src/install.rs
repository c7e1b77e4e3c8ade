//! A daemon's identity and the files that install it: the label, where the
//! service manager listens, and the text of the systemd units. The files are
//! written and the service manager is run outside this library.

use vstd::prelude::*;
use vstd::string::{StringExecFns, StringSliceAdditionalSpecFns};
use crate::cache::{join, joined};
use crate::client::io_error_text;
use crate::envelope::Version;
use crate::text::{chars_of, concat, decimal, decimal_of, push_char};

verus! {

/// The service manager a daemon is installed under.
#[derive(Clone, Copy, Debug, PartialEq, Eq, Structural)]
pub enum Platform {
    /// `systemd --user`, with sockets under `$XDG_RUNTIME_DIR`.
    Linux,
    /// launchd, with sockets under `~/Library/Application Support`.
    MacOs,
}

impl Platform {
    /// The longest socket path, in bytes, the platform allows:
    /// `sizeof(sun_path)` less the terminating NUL.
    pub fn max_socket_path(self) -> (limit: usize)
        ensures
            limit == match self {
                Platform::Linux => 107usize,
                Platform::MacOs => 103usize,
            },
    {
        match self {
            Platform::Linux => 107,
            Platform::MacOs => 103,
        }
    }
}

/// Why an install or an uninstall failed.
#[derive(Debug)]
#[non_exhaustive]
pub enum InstallError {
    /// A needed base directory is unset or relative.
    NoBaseDirectory(&'static str),
    /// The program or an argument is not UTF-8, which a `LaunchAgent` cannot
    /// hold.
    NotUnicode(String),
    /// The socket path is longer than the platform allows.
    SocketPathTooLong {
        /// The path that is too long.
        path: String,
        /// The most bytes the platform allows.
        limit: usize,
    },
    /// `launchctl` or `systemctl` failed.
    Command {
        /// The command line.
        command: String,
        /// Its standard error.
        stderr: String,
    },
    /// A unit file could not be written or removed.
    Io(std::io::Error),
}

/// A daemon's identity: its name and protocol major. The label, the unit
/// files, and the socket name all carry the major, so two majors never share
/// a socket.
#[derive(Clone, Debug, PartialEq, Eq)]
pub struct Service {
    name: String,
    major: u16,
}

pub open spec fn label_of(name: Seq<char>, major: u16) -> Seq<char> {
    name + "-v"@ + decimal_of(major as nat)
}

/// A base directory taken from the environment is usable only when it is
/// set and absolute.
pub open spec fn usable_base(base: Option<Seq<char>>) -> bool {
    base matches Some(b) && b.len() > 0 && b[0] == '/'
}

pub open spec fn opt_view(base: Option<&str>) -> Option<Seq<char>> {
    match base {
        Some(b) => Some(b@),
        None => None,
    }
}

/// The directory of the sockets of service `name`: `$XDG_RUNTIME_DIR/<name>`
/// on Linux, and `$HOME/Library/Application Support/<name>` on macOS.
pub open spec fn socket_dir_of(platform: Platform, base: Seq<char>, name: Seq<char>) -> Seq<char> {
    match platform {
        Platform::Linux => joined(base, name),
        Platform::MacOs => joined(
            joined(joined(base, "Library"@), "Application Support"@),
            name,
        ),
    }
}

/// Whether the directory `base` an environment variable gives is usable.
pub(crate) fn absolute(base: Option<&str>) -> (usable: bool)
    ensures
        usable == usable_base(opt_view(base)),
{
    match base {
        Some(b) => {
            let chars = chars_of(b);
            chars.len() > 0 && chars[0] == '/'
        },
        None => false,
    }
}

/// The environment variable the socket directory is under.
pub open spec fn base_variable(platform: Platform) -> &'static str {
    match platform {
        Platform::Linux => "XDG_RUNTIME_DIR",
        Platform::MacOs => "HOME",
    }
}

/// The directory the sockets of service `name` live in, from `base`, the
/// value of the platform's base variable.
pub fn socket_dir(platform: Platform, base: Option<&str>, name: &str) -> (dir: Result<
    String,
    InstallError,
>)
    ensures
        usable_base(opt_view(base)) ==> (dir matches Ok(d) && d@ == socket_dir_of(
            platform,
            base.unwrap()@,
            name@,
        )),
        !usable_base(opt_view(base)) ==> (dir matches Err(InstallError::NoBaseDirectory(v)) && v
            == base_variable(platform)),
{
    if !absolute(base) {
        return Err(
            InstallError::NoBaseDirectory(
                match platform {
                    Platform::Linux => "XDG_RUNTIME_DIR",
                    Platform::MacOs => "HOME",
                },
            ),
        );
    }
    let base = base.unwrap();
    match platform {
        Platform::Linux => Ok(join(base, name)),
        Platform::MacOs => {
            let library = join(base, "Library");
            let support = join(library.as_str(), "Application Support");
            Ok(join(support.as_str(), name))
        },
    }
}

impl Service {
    pub closed spec fn name_view(&self) -> Seq<char> {
        self.name@
    }

    pub closed spec fn major_view(&self) -> u16 {
        self.major
    }

    /// The service `name` speaking `version`. `name` becomes a file name, so
    /// it should be a short word such as the program's name.
    pub fn new(name: &str, version: Version) -> (service: Service)
        ensures
            service.name_view() == name@,
            service.major_view() == version.major,
    {
        Service { name: name.to_owned(), major: version.major }
    }

    /// The service's name.
    pub fn name(&self) -> (name: &str)
        ensures
            name@ == self.name_view(),
    {
        self.name.as_str()
    }

    /// `<name>-v<major>`: the launchd label, the systemd unit name, and the
    /// socket's file name.
    pub fn label(&self) -> (label: String)
        ensures
            label@ == label_of(self.name_view(), self.major_view()),
    {
        let mut label = self.name.clone();
        label.append("-v");
        label.append(decimal(self.major as u64).as_str());
        label
    }

    /// Where the service manager listens: `<label>.sock` in the socket
    /// directory under `base`, the value of the platform's base variable.
    pub fn socket_path(&self, platform: Platform, base: Option<&str>) -> (path: Result<
        String,
        InstallError,
    >)
        ensures
            usable_base(opt_view(base)) ==> (path matches Ok(p) && p@ == joined(
                socket_dir_of(platform, base.unwrap()@, self.name_view()),
                label_of(self.name_view(), self.major_view()) + ".sock"@,
            )),
            !usable_base(opt_view(base)) ==> (path matches Err(InstallError::NoBaseDirectory(v))
                && v == base_variable(platform)),
    {
        let dir = socket_dir(platform, base, self.name.as_str())?;
        let mut file = self.label();
        file.append(".sock");
        Ok(join(dir.as_str(), file.as_str()))
    }
}

/// Refuses a socket path longer, in bytes, than `platform` allows, before
/// any file is written.
pub fn check_socket_path(platform: Platform, path: &str) -> (checked: Result<(), InstallError>)
    ensures
        path.spec_bytes().len() <= platform.max_socket_path_spec() ==> checked is Ok,
        path.spec_bytes().len() > platform.max_socket_path_spec() ==> (checked matches Err(
            InstallError::SocketPathTooLong { path: p, limit },
        ) && p@ == path@ && limit == platform.max_socket_path_spec()),
{
    let limit = platform.max_socket_path();
    let bytes = path.as_bytes();
    if bytes.len() > limit {
        return Err(InstallError::SocketPathTooLong { path: path.to_owned(), limit });
    }
    Ok(())
}

impl Platform {
    pub open spec fn max_socket_path_spec(self) -> usize {
        match self {
            Platform::Linux => 107usize,
            Platform::MacOs => 103usize,
        }
    }
}

/// One `ExecStart` word in double quotes, with `\`, `"`, `%` and `$` escaped
/// the way systemd reads them: `\\`, `\"`, `%%` and `$$`.
pub open spec fn quoted_chars(word: Seq<char>) -> Seq<char>
    decreases word.len(),
{
    if word.len() == 0 {
        Seq::empty()
    } else {
        let c = word.last();
        quoted_chars(word.drop_last()) + if c == '\\' || c == '"' {
            seq!['\\', c]
        } else if c == '%' {
            seq!['%', '%']
        } else if c == '$' {
            seq!['$', '$']
        } else {
            seq![c]
        }
    }
}

pub open spec fn quoted(word: Seq<char>) -> Seq<char> {
    seq!['"'] + quoted_chars(word) + seq!['"']
}

/// Quotes one `ExecStart` word.
pub fn quote(word: &str) -> (out: String)
    ensures
        out@ == quoted(word@),
{
    let chars = chars_of(word);
    let mut out = String::new();
    push_char(&mut out, '"');
    let mut i: usize = 0;
    while i < chars.len()
        invariant
            i <= chars.len(),
            out@ == seq!['"'] + quoted_chars(chars@.take(i as int)),
        decreases chars.len() - i,
    {
        let c = chars[i];
        assert(chars@.take(i + 1).drop_last() =~= chars@.take(i as int));
        if c == '\\' || c == '"' {
            push_char(&mut out, '\\');
            push_char(&mut out, c);
        } else if c == '%' {
            push_char(&mut out, '%');
            push_char(&mut out, '%');
        } else if c == '$' {
            push_char(&mut out, '$');
            push_char(&mut out, '$');
        } else {
            push_char(&mut out, c);
        }
        assert(out@ =~= seq!['"'] + quoted_chars(chars@.take(i + 1)));
        i = i + 1;
    }
    assert(chars@.take(chars.len() as int) =~= chars@);
    push_char(&mut out, '"');
    out
}

/// The `ExecStart` line of `program` and its `args`, each quoted, separated
/// by one space.
pub open spec fn exec_line_of(program: Seq<char>, args: Seq<Seq<char>>) -> Seq<char>
    decreases args.len(),
{
    if args.len() == 0 {
        quoted(program)
    } else {
        exec_line_of(program, args.drop_last()) + seq![' '] + quoted(args.last())
    }
}

/// The command line systemd runs.
pub fn exec_line(program: &str, args: &Vec<String>) -> (line: String)
    ensures
        line@ == exec_line_of(program@, args@.map_values(|a: String| a@)),
{
    let ghost views = args@.map_values(|a: String| a@);
    let mut line = quote(program);
    let mut i: usize = 0;
    while i < args.len()
        invariant
            i <= args.len(),
            views == args@.map_values(|a: String| a@),
            line@ == exec_line_of(program@, views.take(i as int)),
        decreases args.len() - i,
    {
        assert(views.take(i + 1).drop_last() =~= views.take(i as int));
        assert(views[i as int] == args@[i as int]@);
        push_char(&mut line, ' ');
        line.append(quote(args[i].as_str()).as_str());
        i = i + 1;
    }
    assert(views.take(args.len() as int) =~= views);
    line
}

pub open spec fn socket_unit_of(label: Seq<char>, socket: Seq<char>) -> Seq<char> {
    "[Unit]\nDescription="@ + label + " socket\n\n[Socket]\nListenStream="@ + socket
        + "\nSocketMode=0600\nDirectoryMode=0700\nAccept=no\nTriggerLimitIntervalSec=2\nTriggerLimitBurst=200\n\n[Install]\nWantedBy=sockets.target\n"@
}

pub open spec fn service_unit_of(label: Seq<char>, exec: Seq<char>) -> Seq<char> {
    "[Unit]\nDescription="@ + label + "\nRequires="@ + label
        + ".socket\nStartLimitIntervalSec=10\nStartLimitBurst=100\n\n[Service]\nExecStart="@ + exec
        + "\nStandardInput=socket\nStandardOutput=journal\nStandardError=journal\n"@
}

/// The systemd socket unit: the manager listens on `socket`, `0600` in a
/// `0700` directory, and starts the service on the first connection.
pub fn socket_unit(label: &str, socket: &str) -> (unit: String)
    ensures
        unit@ == socket_unit_of(label@, socket@),
{
    let mut unit = concat("[Unit]\nDescription=", label);
    unit.append(" socket\n\n[Socket]\nListenStream=");
    unit.append(socket);
    unit.append(
        "\nSocketMode=0600\nDirectoryMode=0700\nAccept=no\nTriggerLimitIntervalSec=2\nTriggerLimitBurst=200\n\n[Install]\nWantedBy=sockets.target\n",
    );
    unit
}

/// The systemd service unit: it runs `exec` with the socket on its standard
/// input.
pub fn service_unit(label: &str, exec: &str) -> (unit: String)
    ensures
        unit@ == service_unit_of(label@, exec@),
{
    let mut unit = concat("[Unit]\nDescription=", label);
    unit.append("\nRequires=");
    unit.append(label);
    unit.append(".socket\nStartLimitIntervalSec=10\nStartLimitBurst=100\n\n[Service]\nExecStart=");
    unit.append(exec);
    unit.append("\nStandardInput=socket\nStandardOutput=journal\nStandardError=journal\n");
    unit
}

/// The systemd user unit directory: `$XDG_CONFIG_HOME/systemd/user`, or
/// `$HOME/.config/systemd/user` when that is unset or relative.
pub fn unit_dir(config_home: Option<&str>, home: Option<&str>) -> (dir: Result<String, InstallError>)
    ensures
        usable_base(opt_view(config_home)) ==> (dir matches Ok(d) && d@ == joined(
            joined(config_home.unwrap()@, "systemd"@),
            "user"@,
        )),
        !usable_base(opt_view(config_home)) && usable_base(opt_view(home)) ==> (dir matches Ok(d)
            && d@ == joined(joined(joined(home.unwrap()@, ".config"@), "systemd"@), "user"@)),
        !usable_base(opt_view(config_home)) && !usable_base(opt_view(home)) ==> (dir matches Err(
            InstallError::NoBaseDirectory(v),
        ) && v == "HOME"),
{
    let config = if absolute(config_home) {
        config_home.unwrap().to_owned()
    } else if absolute(home) {
        join(home.unwrap(), ".config")
    } else {
        return Err(InstallError::NoBaseDirectory("HOME"));
    };
    let systemd = join(config.as_str(), "systemd");
    Ok(join(systemd.as_str(), "user"))
}

/// Where the `LaunchAgent` of `service` goes:
/// `$HOME/Library/LaunchAgents/<label>.plist`.
pub fn plist_path(service: &Service, home: Option<&str>) -> (path: Result<String, InstallError>)
    ensures
        usable_base(opt_view(home)) ==> (path matches Ok(p) && p@ == joined(
            joined(joined(home.unwrap()@, "Library"@), "LaunchAgents"@),
            label_of(service.name_view(), service.major_view()) + ".plist"@,
        )),
        !usable_base(opt_view(home)) ==> (path matches Err(InstallError::NoBaseDirectory(v)) && v
            == "HOME"),
{
    if !absolute(home) {
        return Err(InstallError::NoBaseDirectory("HOME"));
    }
    let library = join(home.unwrap(), "Library");
    let agents = join(library.as_str(), "LaunchAgents");
    let mut file = service.label();
    file.append(".plist");
    Ok(join(agents.as_str(), file.as_str()))
}

/// What a `LaunchAgent` says: the label, the program and its arguments, the
/// socket launchd listens on with its mode, that launchd waits for the
/// daemon to exit before it starts another (`inetdCompatibility.Wait`), and
/// the throttle interval in seconds.
#[derive(Clone, Debug, PartialEq, Eq)]
pub struct Agent {
    pub label: String,
    pub program_arguments: Vec<String>,
    pub socket: String,
    pub socket_mode: u32,
    pub wait: bool,
    pub throttle_interval: u32,
}

/// The `LaunchAgent` of `service` listening on `socket` and running
/// `program` with `args`.
pub fn agent(service: &Service, socket: &str, program: &str, args: &Vec<String>) -> (agent: Agent)
    ensures
        agent.label@ == label_of(service.name_view(), service.major_view()),
        agent.program_arguments@.map_values(|a: String| a@) == seq![program@] + args@.map_values(
            |a: String| a@,
        ),
        agent.socket@ == socket@,
        agent.socket_mode == 0o600,
        agent.wait,
        agent.throttle_interval == 1,
{
    let mut words: Vec<String> = Vec::new();
    words.push(program.to_owned());
    let mut i: usize = 0;
    while i < args.len()
        invariant
            i <= args.len(),
            words@.map_values(|a: String| a@) == seq![program@] + args@.map_values(
                |a: String| a@,
            ).take(i as int),
        decreases args.len() - i,
    {
        let ghost before = words@;
        let word = args[i].clone();
        assert(word@ == args@[i as int]@);
        words.push(word);
        assert(words@.map_values(|a: String| a@) =~= before.map_values(|a: String| a@).push(
            args@[i as int]@,
        ));
        assert(args@.map_values(|a: String| a@).take(i + 1) =~= args@.map_values(
            |a: String| a@,
        ).take(i as int).push(args@[i as int]@));
        i = i + 1;
    }
    assert(args@.map_values(|a: String| a@).take(args.len() as int) =~= args@.map_values(
        |a: String| a@,
    ));
    Agent {
        label: service.label(),
        program_arguments: words,
        socket: socket.to_owned(),
        socket_mode: 0o600,
        wait: true,
        throttle_interval: 1,
    }
}


/// The launchd domain of the user `uid`'s GUI session: `gui/<uid>`.
pub fn launchd_domain(uid: u32) -> (domain: String)
    ensures
        domain@ == "gui/"@ + decimal_of(uid as nat),
{
    concat("gui/", decimal(uid as u64).as_str())
}

/// The launchd target of `service` in `domain`: `<domain>/<label>`.
pub fn launchd_target(domain: &str, service: &Service) -> (target: String)
    ensures
        target@ == domain@ + "/"@ + label_of(service.name_view(), service.major_view()),
{
    let mut target = concat(domain, "/");
    target.append(service.label().as_str());
    target
}

/// The file name of one of `service`'s systemd units: `<label>.<kind>`.
pub fn unit_name(service: &Service, kind: &str) -> (name: String)
    ensures
        name@ == label_of(service.name_view(), service.major_view()) + "."@ + kind@,
{
    let mut name = service.label();
    name.append(".");
    name.append(kind);
    name
}

impl InstallError {
    /// What went wrong, for a person.
    pub fn describe(&self) -> (text: String)
        ensures
            match self {
                InstallError::NoBaseDirectory(v) => text@ == v@ + " is unset or not an absolute path"@,
                InstallError::NotUnicode(w) => text@ == w@ + " is not UTF-8"@,
                InstallError::SocketPathTooLong { path, limit } => text@ == "the socket path "@
                    + path@ + " is longer than "@ + decimal_of(*limit as nat) + " bytes"@,
                InstallError::Command { command, stderr } => text@ == command@ + " failed: "@
                    + stderr@,
                InstallError::Io(_) => exists|error: Seq<char>| text@ == "unit file error: "@ + error,
            },
    {
        match self {
            InstallError::NoBaseDirectory(v) => concat(v, " is unset or not an absolute path"),
            InstallError::NotUnicode(w) => concat(w.as_str(), " is not UTF-8"),
            InstallError::SocketPathTooLong { path, limit } => {
                let mut text = concat("the socket path ", path.as_str());
                text.append(" is longer than ");
                text.append(decimal(*limit as u64).as_str());
                text.append(" bytes");
                text
            },
            InstallError::Command { command, stderr } => {
                let mut text = concat(command.as_str(), " failed: ");
                text.append(stderr.as_str());
                text
            },
            InstallError::Io(error) => {
                let error_text = io_error_text(error);
                let text = concat("unit file error: ", error_text.as_str());
                assert(text@ == "unit file error: "@ + error_text@);
                text
            },
        }
    }
}

} // verus!
