//! The virtual device as its commands show it: whether it runs, how its
//! emulator was launched, and how to launch the same instance with gRPC.
use crate::outside::{output_text, utf8_lossy};
use crate::text::{
    begins_with, chars_of, contains, decimal, decimal_text, ends_are_prefixes_and_suffixes, ends_in,
    ends_with, find, first_at, first_place_has_the_least_before_it, last_index_before, matches_at,
    number_of, occurs_at, occurs_in, parse_u32, same, starts_with, texts,
    what_occurs_stands_somewhere, words, words_of,
};
use vstd::prelude::*;

verus! {

/// A gRPC server to capture from.
#[derive(Debug)]
pub struct GrpcTarget {
    /// The port on the loopback interface.
    pub port: u16,
    /// The token that authenticates calls.
    pub token: String,
}

/// Why there is no gRPC server to capture from.
#[derive(Debug)]
pub enum VvdError {
    /// The server answers, but no discovery file names its token.
    NoToken { port: u16 },
    /// No server answers, and none may be started.
    NoServer { port: u16 },
    /// The device could not be started: the command ended with a status.
    StartFailed { status: String },
    /// The device could not be started: the command could not be run.
    StartError { detail: String },
    /// No emulator process was found.
    NoEngine,
    /// The emulator's command line could not be asked for.
    ArgvError { detail: String },
    /// The emulator's command line was empty.
    NoArgv { pid: u32 },
    /// There was no command line to relaunch.
    EmptyArgv,
    /// The emulator does not lie where its launcher can be told from.
    NoAgentDir { engine: String },
    /// There is no launcher.
    NoLauncher { launcher: String },
    /// The launcher could not be run.
    LaunchError { detail: String },
    /// The relaunched server did not come up in time.
    GrpcTimeout { port: u16 },
    /// The relaunched server's token did not appear in time.
    TokenTimeout { port: u16 },
}

/// What an error says.
pub enum ErrorModel {
    NoToken { port: u16 },
    NoServer { port: u16 },
    StartFailed { status: Seq<char> },
    StartError { detail: Seq<char> },
    NoEngine,
    ArgvError { detail: Seq<char> },
    NoArgv { pid: u32 },
    EmptyArgv,
    NoAgentDir { engine: Seq<char> },
    NoLauncher { launcher: Seq<char> },
    LaunchError { detail: Seq<char> },
    GrpcTimeout { port: u16 },
    TokenTimeout { port: u16 },
}

impl View for VvdError {
    type V = ErrorModel;

    open spec fn view(&self) -> ErrorModel {
        match *self {
            VvdError::NoToken { port } => ErrorModel::NoToken { port },
            VvdError::NoServer { port } => ErrorModel::NoServer { port },
            VvdError::StartFailed { status } => ErrorModel::StartFailed { status: status@ },
            VvdError::StartError { detail } => ErrorModel::StartError { detail: detail@ },
            VvdError::NoEngine => ErrorModel::NoEngine,
            VvdError::ArgvError { detail } => ErrorModel::ArgvError { detail: detail@ },
            VvdError::NoArgv { pid } => ErrorModel::NoArgv { pid },
            VvdError::EmptyArgv => ErrorModel::EmptyArgv,
            VvdError::NoAgentDir { engine } => ErrorModel::NoAgentDir { engine: engine@ },
            VvdError::NoLauncher { launcher } => ErrorModel::NoLauncher { launcher: launcher@ },
            VvdError::LaunchError { detail } => ErrorModel::LaunchError { detail: detail@ },
            VvdError::GrpcTimeout { port } => ErrorModel::GrpcTimeout { port },
            VvdError::TokenTimeout { port } => ErrorModel::TokenTimeout { port },
        }
    }
}

impl ErrorModel {
    /// The error in words.
    pub open spec fn text(self) -> Seq<char> {
        match self {
            ErrorModel::NoToken { port } => "gRPC reachable on :"@ + decimal(port as nat)
                + " but no token found in discovery files; cannot authenticate"@,
            ErrorModel::NoServer { port } => "no gRPC VVD on 127.0.0.1:"@ + decimal(port as nat)
                + " and --no-autostart was given.\nLaunch one with: <agent>/emulator <args> -grpc "@
                + decimal(port as nat) + " -grpc-use-token"@,
            ErrorModel::StartFailed { status } => "`vega virtual-device start` failed ("@ + status
                + ")"@,
            ErrorModel::StartError { detail } => detail,
            ErrorModel::NoEngine => "emulator process not found"@,
            ErrorModel::ArgvError { detail } => detail,
            ErrorModel::NoArgv { pid } => "could not read argv for pid "@ + decimal(pid as nat),
            ErrorModel::EmptyArgv => "empty emulator argv"@,
            ErrorModel::NoAgentDir { engine } => "cannot derive agent dir from emulator path: "@
                + engine,
            ErrorModel::NoLauncher { launcher } => "emulator launcher not found at "@ + launcher,
            ErrorModel::LaunchError { detail } => detail,
            ErrorModel::GrpcTimeout { port } => "gRPC :"@ + decimal(port as nat)
                + " did not come up within 120s"@,
            ErrorModel::TokenTimeout { port } => "gRPC up on :"@ + decimal(port as nat)
                + " but no token appeared in discovery files"@,
        }
    }

    /// What was being done, where the error does not say so itself.
    pub open spec fn activity_text(self) -> Option<Seq<char>> {
        match self {
            ErrorModel::StartFailed { .. } | ErrorModel::StartError { .. } => Some(
                "vega virtual-device start"@,
            ),
            ErrorModel::NoEngine | ErrorModel::ArgvError { .. } | ErrorModel::NoArgv { .. } => Some(
                "read running emulator argv"@,
            ),
            ErrorModel::LaunchError { .. } => Some("spawn emulator launcher"@),
            ErrorModel::GrpcTimeout { .. } => Some("waiting for gRPC server to come up"@),
            _ => None,
        }
    }
}

/// `a`, then `n` in decimal, then `b`.
fn around_number(a: &str, n: u64, b: &str) -> (s: String)
    ensures
        s@ == a@ + decimal(n as nat) + b@,
{
    let mut s = a.to_owned();
    s.append(decimal_text(n).as_str());
    s.append(b);
    s
}

/// `a`, then `b`, then `c`.
fn concat3(a: &str, b: &str, c: &str) -> (s: String)
    ensures
        s@ == a@ + b@ + c@,
{
    let mut s = a.to_owned();
    s.append(b);
    s.append(c);
    s
}

impl VvdError {
    /// The error in words.
    pub fn message(&self) -> (s: String)
        ensures
            s@ == self@.text(),
    {
        match self {
            VvdError::NoToken { port } => around_number(
                "gRPC reachable on :",
                *port as u64,
                " but no token found in discovery files; cannot authenticate",
            ),
            VvdError::NoServer { port } => {
                let mut s = around_number(
                    "no gRPC VVD on 127.0.0.1:",
                    *port as u64,
                    " and --no-autostart was given.\nLaunch one with: <agent>/emulator <args> -grpc ",
                );
                s.append(decimal_text(*port as u64).as_str());
                s.append(" -grpc-use-token");
                s
            },
            VvdError::StartFailed { status } => concat3(
                "`vega virtual-device start` failed (",
                status.as_str(),
                ")",
            ),
            VvdError::StartError { detail } => detail.clone(),
            VvdError::NoEngine => "emulator process not found".to_owned(),
            VvdError::ArgvError { detail } => detail.clone(),
            VvdError::NoArgv { pid } => {
                let mut s = "could not read argv for pid ".to_owned();
                s.append(decimal_text(*pid as u64).as_str());
                s
            },
            VvdError::EmptyArgv => "empty emulator argv".to_owned(),
            VvdError::NoAgentDir { engine } => {
                let mut s = "cannot derive agent dir from emulator path: ".to_owned();
                s.append(engine.as_str());
                s
            },
            VvdError::NoLauncher { launcher } => {
                let mut s = "emulator launcher not found at ".to_owned();
                s.append(launcher.as_str());
                s
            },
            VvdError::LaunchError { detail } => detail.clone(),
            VvdError::GrpcTimeout { port } => around_number(
                "gRPC :",
                *port as u64,
                " did not come up within 120s",
            ),
            VvdError::TokenTimeout { port } => around_number(
                "gRPC up on :",
                *port as u64,
                " but no token appeared in discovery files",
            ),
        }
    }

    /// What was being done, where the error does not say so itself.
    pub fn activity(&self) -> (s: Option<&'static str>)
        ensures
            match s {
                Some(text) => self@.activity_text() == Some(text@),
                None => self@.activity_text() is None,
            },
    {
        match self {
            VvdError::StartFailed { .. } | VvdError::StartError { .. } => Some(
                "vega virtual-device start",
            ),
            VvdError::NoEngine | VvdError::ArgvError { .. } | VvdError::NoArgv { .. } => Some(
                "read running emulator argv",
            ),
            VvdError::LaunchError { .. } => Some("spawn emulator launcher"),
            VvdError::GrpcTimeout { .. } => Some("waiting for gRPC server to come up"),
            _ => None,
        }
    }
}

/// Whether a status report says that the device is running.
pub open spec fn running_in(report: Seq<char>) -> bool {
    occurs_in(report, "\"running\":true"@)
}

/// Whether a status report says that the device is running.
pub fn reports_running(report: &str) -> (r: bool)
    ensures
        r == running_in(report@),
{
    contains(report, "\"running\":true")
}

/// Whether the device is running, by the output of the status command; it is
/// not where the command could not be run.
pub fn vega_running(output: Option<&[u8]>) -> (r: bool)
    ensures
        r == match output {
            Some(bytes) => running_in(output_text(bytes@)),
            None => false,
        },
{
    match output {
        Some(bytes) => reports_running(utf8_lossy(bytes).as_str()),
        None => false,
    }
}

/// What starting the device comes to, by the status that the start command
/// ended with.
pub fn vega_start(success: bool, status: String) -> (r: Result<(), VvdError>)
    ensures
        match r {
            Ok(()) => success,
            Err(e) => !success && e@ == (ErrorModel::StartFailed { status: status@ }),
        },
{
    if success {
        Ok(())
    } else {
        Err(VvdError::StartFailed { status })
    }
}

/// The first of the words that is a process id.
pub open spec fn first_pid(words: Seq<Seq<char>>) -> Option<nat>
    decreases words.len(),
{
    if words.len() == 0 {
        None
    } else {
        match number_of(words[0], 0xffff_ffff) {
            Some(pid) => Some(pid),
            None => first_pid(words.drop_first()),
        }
    }
}

/// The first process id in a listing.
pub fn first_pid_in(listing: &str) -> (r: Option<u32>)
    ensures
        match r {
            Some(pid) => first_pid(words_of(listing@)) == Some(pid as nat),
            None => first_pid(words_of(listing@)) is None,
        },
{
    let all = words(listing);
    let len: usize = all.len();
    let mut i: usize = 0;
    assert(words_of(listing@).skip(0) == words_of(listing@));
    while i < len
        invariant
            len == all@.len(),
            texts(all@) == words_of(listing@),
            i <= len,
            first_pid(words_of(listing@)) == first_pid(words_of(listing@).skip(i as int)),
        decreases len - i,
    {
        let ghost rest = words_of(listing@).skip(i as int);
        assert(rest[0] == all@[i as int]@);
        assert(rest.drop_first() == words_of(listing@).skip(i + 1));
        if let Some(pid) = parse_u32(all[i].as_str()) {
            return Some(pid);
        }
        i = i + 1;
    }
    None
}

/// The process id of the emulator, by the output of the process search; there
/// is none where the search could not be run.
pub fn first_engine_pid(output: Option<&[u8]>) -> (r: Option<u32>)
    ensures
        match output {
            Some(bytes) => match r {
                Some(pid) => first_pid(words_of(output_text(bytes@))) == Some(pid as nat),
                None => first_pid(words_of(output_text(bytes@))) is None,
            },
            None => r is None,
        },
{
    match output {
        Some(bytes) => first_pid_in(utf8_lossy(bytes).as_str()),
        None => None,
    }
}

/// The command line of process `pid`, by its listing.
pub fn split_command(pid: u32, listing: &str) -> (r: Result<Vec<String>, VvdError>)
    ensures
        match r {
            Ok(argv) => argv@.len() > 0 && texts(argv@) == words_of(listing@),
            Err(e) => words_of(listing@).len() == 0 && e@ == (ErrorModel::NoArgv { pid }),
        },
{
    let argv = words(listing);
    assert(texts(argv@).len() == argv@.len());
    if argv.len() == 0 {
        Err(VvdError::NoArgv { pid })
    } else {
        Ok(argv)
    }
}

/// The command line of process `pid`, by the output of the process listing.
pub fn engine_argv(pid: u32, output: &[u8]) -> (r: Result<Vec<String>, VvdError>)
    ensures
        match r {
            Ok(argv) => argv@.len() > 0 && texts(argv@) == words_of(output_text(output@)),
            Err(e) => words_of(output_text(output@)).len() == 0 && e@ == (ErrorModel::NoArgv {
                pid,
            }),
        },
{
    split_command(pid, utf8_lossy(output).as_str())
}

/// Whether an emulator lies at `<agent>/qemu/<host>/vega-virtual-device`, where
/// `<agent>` is some `.../vmtools/agent`.
pub open spec fn laid_out(engine: Seq<char>, agent: Seq<char>, host: Seq<char>) -> bool {
    &&& engine == agent + "/qemu/"@ + host + "/vega-virtual-device"@
    &&& ends_in(agent, "/vmtools/agent"@)
    &&& host.len() > 0
    &&& !host.contains('/')
}

/// The directory of the launcher of an emulator: the `<agent>` of an emulator
/// at `<agent>/qemu/<host>/vega-virtual-device`, and of one that lies elsewhere
/// what stands before the first `/qemu/` of its path.
pub open spec fn agent_path(engine: Seq<char>) -> Option<Seq<char>> {
    if exists|agent: Seq<char>, host: Seq<char>| laid_out(engine, agent, host) {
        let (agent, host) = choose|agent: Seq<char>, host: Seq<char>|
            laid_out(engine, agent, host);
        Some(agent)
    } else if occurs_in(engine, "/qemu/"@) {
        Some(engine.take(choose|i: int| first_at(engine, "/qemu/"@, i)))
    } else {
        None
    }
}

/// Whether a path is `/vega-virtual-device` below a directory of which the last
/// slash ends a `/qemu/` that begins at `n`.
pub open spec fn qemu_above_host(engine: Seq<char>, n: int) -> bool {
    let q = engine.len() - "/vega-virtual-device"@.len();
    &&& ends_in(engine, "/vega-virtual-device"@)
    &&& occurs_at(engine, "/qemu/"@, n)
    &&& n + 6 < q
    &&& engine[n + 5] == '/'
    &&& forall|j: int| n + 5 < j < q ==> #[trigger] engine[j] != '/'
}

/// In the layout, the last slash before that of the name ends the `/qemu/`
/// after the agent.
pub proof fn lemma_layout_slash(engine: Seq<char>, agent: Seq<char>, host: Seq<char>)
    requires
        laid_out(engine, agent, host),
    ensures
        agent == engine.take(agent.len() as int),
        qemu_above_host(engine, agent.len() as int),
{
    reveal_strlit("/qemu/");
    let n = agent.len() as int;
    let q = n + 6 + host.len();
    assert(engine.skip(q) =~= "/vega-virtual-device"@);
    assert(engine.subrange(n, n + 6) =~= "/qemu/"@);
    assert(engine.take(n) =~= agent);
    assert forall|j: int| n + 5 < j < q implies #[trigger] engine[j] != '/' by {
        assert(engine[j] == host[j - n - 6]);
    }
}

/// The length of the `<agent>` of an emulator at
/// `<agent>/qemu/<host>/vega-virtual-device`.
fn layout_agent_len(engine: &str) -> (r: Option<usize>)
    ensures
        match r {
            Some(n) => n <= engine@.len() && exists|host: Seq<char>|
                laid_out(engine@, engine@.take(n as int), host),
            None => forall|agent: Seq<char>, host: Seq<char>| !laid_out(engine@, agent, host),
        },
{
    let chars = chars_of(engine);
    let marker = chars_of("/qemu/");
    let name = chars_of("/vega-virtual-device");
    proof {
        reveal_strlit("/qemu/");
        assert forall|agent: Seq<char>, host: Seq<char>|
            laid_out(engine@, agent, host) implies qemu_above_host(engine@, agent.len() as int)
            && ends_in(engine@.take(agent.len() as int), "/vmtools/agent"@) by {
            lemma_layout_slash(engine@, agent, host);
        }
    }
    if !ends_with(engine, "/vega-virtual-device") {
        return None;
    }
    let q: usize = chars.len() - name.len();
    let p: usize = match last_index_before(&chars, q, '/') {
        Some(i) => i,
        None => return None,
    };
    if p < 5 || p + 1 == q || !matches_at(&chars, &marker, p - 5) {
        return None;
    }
    let agent = engine.substring_char(0, p - 5);
    assert(agent@ == engine@.take(p - 5));
    if !ends_with(agent, "/vmtools/agent") {
        return None;
    }
    proof {
        let n = p - 5;
        let host = engine@.subrange(p + 1, q as int);
        assert(engine@.subrange(n, n + 6) == "/qemu/"@);
        assert(engine@ =~= engine@.take(n) + engine@.subrange(n, n + 6) + host + engine@.skip(
            q as int,
        ));
        assert(laid_out(engine@, engine@.take(n), host));
    }
    Some(p - 5)
}

/// The directory of the launcher, from the path of the emulator, which is
/// `.../vmtools/agent/qemu/<host>/vega-virtual-device`. There is none where the
/// path holds no `/qemu/`.
pub fn agent_dir(engine: &str) -> (r: Result<String, VvdError>)
    ensures
        match r {
            Ok(dir) => agent_path(engine@) == Some(dir@),
            Err(e) => agent_path(engine@) is None && e@ == (ErrorModel::NoAgentDir {
                engine: engine@,
            }),
        },
{
    if let Some(n) = layout_agent_len(engine) {
        let dir = engine.substring_char(0, n).to_owned();
        proof {
            assert(dir@ == engine@.take(n as int));
            let host = choose|host: Seq<char>| laid_out(engine@, engine@.take(n as int), host);
            agent_path_of_layout(dir@, host);
        }
        return Ok(dir);
    }
    match find(engine, "/qemu/") {
        Some(i) => {
            proof {
                assert(occurs_at(engine@, "/qemu/"@, i as int));
                assert(first_at(engine@, "/qemu/"@, i as int));
                let k = choose|k: int| first_at(engine@, "/qemu/"@, k);
                assert(k == i);
            }
            let dir = engine.substring_char(0, i).to_owned();
            assert(dir@ == engine@.take(i as int));
            Ok(dir)
        },
        None => Err(VvdError::NoAgentDir { engine: engine.to_owned() }),
    }
}

/// An emulator that lies at `<agent>/qemu/<host>/vega-virtual-device`, with
/// `<agent>` some `.../vmtools/agent`, has its launcher in `<agent>`, whatever
/// directories `<agent>` goes through.
pub proof fn agent_path_of_layout(agent: Seq<char>, host: Seq<char>)
    requires
        ends_in(agent, "/vmtools/agent"@),
        host.len() > 0,
        !host.contains('/'),
    ensures
        agent_path(agent + "/qemu/"@ + host + "/vega-virtual-device"@) == Some(agent),
{
    let engine = agent + "/qemu/"@ + host + "/vega-virtual-device"@;
    assert(laid_out(engine, agent, host));
    let (a, h) = choose|a: Seq<char>, h: Seq<char>| laid_out(engine, a, h);
    lemma_layout_slash(engine, agent, host);
    lemma_layout_slash(engine, a, h);
    assert(a.len() == agent.len());
}

/// An emulator whose path has one `/qemu/` alone has its launcher in what
/// stands before it.
pub proof fn agent_path_of_one_qemu(engine: Seq<char>, n: int)
    requires
        occurs_at(engine, "/qemu/"@, n),
        forall|j: int| j != n ==> !#[trigger] occurs_at(engine, "/qemu/"@, j),
    ensures
        agent_path(engine) == Some(engine.take(n)),
{
    if exists|agent: Seq<char>, host: Seq<char>| laid_out(engine, agent, host) {
        let (agent, host) = choose|agent: Seq<char>, host: Seq<char>|
            laid_out(engine, agent, host);
        lemma_layout_slash(engine, agent, host);
    } else {
        assert(first_at(engine, "/qemu/"@, n));
    }
}

/// The directory of the launcher can be told of exactly the paths that hold a
/// `/qemu/`.
pub proof fn agent_path_needs_qemu(engine: Seq<char>)
    ensures
        agent_path(engine) is Some <==> occurs_in(engine, "/qemu/"@),
{
    if exists|agent: Seq<char>, host: Seq<char>| laid_out(engine, agent, host) {
        let (agent, host) = choose|agent: Seq<char>, host: Seq<char>|
            laid_out(engine, agent, host);
        lemma_layout_slash(engine, agent, host);
        assert(occurs_at(engine, "/qemu/"@, agent.len() as int));
    }
}

/// Whether a file name is that of a socket that a stopped emulator left.
pub open spec fn socket_name(name: Seq<char>) -> bool {
    begins_with(name, "qmp-socket-"@) && ends_in(name, ".sock"@)
}

/// Whether a file name is that of a socket that a stopped emulator left.
pub fn is_stale_socket(name: &str) -> (r: bool)
    ensures
        r == socket_name(name@),
{
    starts_with(name, "qmp-socket-") && ends_with(name, ".sock")
}

/// The index of the first `-qemu`, or the number of arguments.
pub open spec fn passthrough_at(args: Seq<Seq<char>>) -> int
    decreases args.len(),
{
    if args.len() == 0 || args[0] == "-qemu"@ {
        0
    } else {
        1 + passthrough_at(args.drop_first())
    }
}

proof fn lemma_passthrough_at(args: Seq<Seq<char>>, i: int)
    requires
        0 <= i <= args.len(),
        forall|j: int| 0 <= j < i ==> #[trigger] args[j] != "-qemu"@,
        i < args.len() ==> args[i] == "-qemu"@,
    ensures
        passthrough_at(args) == i,
    decreases i,
{
    if i > 0 {
        assert forall|j: int| 0 <= j < i - 1 implies #[trigger] args.drop_first()[j] != "-qemu"@ by {
            assert(args.drop_first()[j] == args[j + 1]);
        }
        lemma_passthrough_at(args.drop_first(), i - 1);
    }
}

/// The arguments that enable gRPC on a port.
pub open spec fn grpc_args(port: u16) -> Seq<Seq<char>> {
    seq!["-grpc"@, decimal(port as nat), "-grpc-use-token"@]
}

/// The launcher's arguments: those of the instance, with the ones that enable
/// gRPC before the arguments that are passed through to QEMU.
pub open spec fn relaunch_args(instance: Seq<Seq<char>>, port: u16) -> Seq<Seq<char>> {
    let i = passthrough_at(instance);
    instance.take(i) + grpc_args(port) + instance.skip(i)
}

/// The launcher's arguments, from the command line of the running emulator.
pub fn launcher_args(argv: &Vec<String>, port: u16) -> (args: Vec<String>)
    requires
        argv@.len() > 0,
    ensures
        texts(args@) == relaunch_args(texts(argv@).drop_first(), port),
{
    let len: usize = argv.len();
    let ghost all = texts(argv@);
    let ghost instance = all.drop_first();
    let mut args: Vec<String> = Vec::new();
    let mut i: usize = 1;
    while i < len && !same(argv[i].as_str(), "-qemu")
        invariant
            len == argv@.len(),
            all == texts(argv@),
            instance == all.drop_first(),
            1 <= i <= len,
            texts(args@) == instance.take(i - 1),
            forall|j: int| 0 <= j < i - 1 ==> #[trigger] instance[j] != "-qemu"@,
        decreases len - i,
    {
        let ghost before = texts(args@);
        let arg = argv[i].clone();
        assert(instance[i - 1] == arg@);
        args.push(arg);
        assert(texts(args@) =~= before.push(arg@));
        i = i + 1;
        assert(instance.take(i - 1) =~= before.push(arg@));
    }
    let ghost at = i - 1;
    proof {
        assert(i < len ==> instance[at] == argv@[i as int]@);
        lemma_passthrough_at(instance, at);
    }
    args.push("-grpc".to_owned());
    args.push(decimal_text(port as u64));
    args.push("-grpc-use-token".to_owned());
    assert(texts(args@) =~= instance.take(at) + grpc_args(port));
    while i < len
        invariant
            len == argv@.len(),
            all == texts(argv@),
            instance == all.drop_first(),
            0 <= at <= i - 1,
            i <= len,
            texts(args@) == instance.take(at) + grpc_args(port) + instance.subrange(at, i - 1),
        decreases len - i,
    {
        let ghost before = texts(args@);
        let arg = argv[i].clone();
        assert(instance[i - 1] == arg@);
        args.push(arg);
        assert(texts(args@) =~= before.push(arg@));
        i = i + 1;
        assert(instance.take(at) + grpc_args(port) + instance.subrange(at, i - 1) =~= before.push(
            arg@,
        ));
    }
    assert(instance.subrange(at, len - 1) == instance.skip(at));
    args
}

/// Relaunching keeps the instance: without the three arguments that enable
/// gRPC, the launcher's arguments are those of the instance, in order, and
/// none of the three stands behind a `-qemu`.
pub proof fn relaunch_keeps_the_instance(instance: Seq<Seq<char>>, port: u16)
    ensures
        ({
            let args = relaunch_args(instance, port);
            let i = passthrough_at(instance);
            &&& 0 <= i <= instance.len()
            &&& args.len() == instance.len() + 3
            &&& args.take(i) + args.skip(i + 3) == instance
            &&& args.subrange(i, i + 3) == grpc_args(port)
            &&& forall|j: int| 0 <= j < i ==> #[trigger] args[j] != "-qemu"@
            &&& i < instance.len() ==> args[i + 3] == "-qemu"@
        }),
{
    lemma_passthrough_bounds(instance);
    let args = relaunch_args(instance, port);
    let i = passthrough_at(instance);
    assert(args.take(i) + args.skip(i + 3) =~= instance);
    assert(args.subrange(i, i + 3) =~= grpc_args(port));
}

proof fn lemma_passthrough_bounds(args: Seq<Seq<char>>)
    ensures
        0 <= passthrough_at(args) <= args.len(),
        passthrough_at(args) < args.len() ==> args[passthrough_at(args)] == "-qemu"@,
        forall|j: int| 0 <= j < passthrough_at(args) ==> #[trigger] args[j] != "-qemu"@,
    decreases args.len(),
{
    if args.len() > 0 && args[0] != "-qemu"@ {
        let rest = args.drop_first();
        lemma_passthrough_bounds(rest);
        assert forall|j: int| 0 <= j < passthrough_at(args) implies #[trigger] args[j]
            != "-qemu"@ by {
            if j > 0 {
                assert(rest[j - 1] == args[j]);
            }
        }
    }
}

/// The device is running exactly where its report holds `"running":true`, with
/// anything before it and anything behind it.
pub proof fn running_is_told_by_the_report(before: Seq<char>, behind: Seq<char>, report: Seq<char>)
    ensures
        running_in(before + "\"running\":true"@ + behind),
        running_in(report) ==> exists|a: Seq<char>, b: Seq<char>|
            report == #[trigger] (a + "\"running\":true"@ + b),
{
    let mark = "\"running\":true"@;
    first_place_has_the_least_before_it(before, mark, behind, 0);
    if running_in(report) {
        let i = what_occurs_stands_somewhere(report, mark);
        assert(report == report.take(i) + mark + report.skip(i + mark.len()));
    }
}

/// The process that is taken is the first that is listed: words that are no
/// process ids are passed over, and what comes after the first id does not
/// matter. Without any there is none.
pub proof fn first_listed_process_is_taken(
    others: Seq<Seq<char>>,
    word: Seq<char>,
    more: Seq<Seq<char>>,
)
    requires
        forall|i: int| 0 <= i < others.len() ==> number_of(#[trigger] others[i], 0xffff_ffff) is None,
    ensures
        first_pid(others) is None,
        number_of(word, 0xffff_ffff) is Some ==> first_pid(others + seq![word] + more) == number_of(
            word,
            0xffff_ffff,
        ),
    decreases others.len(),
{
    let all = others + seq![word] + more;
    if others.len() > 0 {
        let rest = others.drop_first();
        assert forall|i: int| 0 <= i < rest.len() implies number_of(
            #[trigger] rest[i],
            0xffff_ffff,
        ) is None by {
            assert(rest[i] == others[i + 1]);
        }
        first_listed_process_is_taken(rest, word, more);
        assert(all[0] == others[0]);
        assert(all.drop_first() =~= rest + seq![word] + more);
    } else {
        assert(all[0] == word);
    }
}

/// A path that is not `.../vmtools/agent/qemu/<host>/vega-virtual-device` is
/// cut at its first `/qemu/`: the directory, `/qemu/` and the rest make up the
/// path, and no `/qemu/` begins earlier.
pub proof fn other_paths_are_cut_at_the_first_qemu(engine: Seq<char>, n: int)
    requires
        forall|agent: Seq<char>, host: Seq<char>|
            engine == #[trigger] (agent + "/qemu/"@ + host + "/vega-virtual-device"@) ==> !(
            "/vmtools/agent"@.is_suffix_of(agent)) || host.len() == 0 || host.contains('/'),
        0 <= n <= engine.len() - "/qemu/"@.len(),
        engine.subrange(n, n + "/qemu/"@.len()) == "/qemu/"@,
        forall|j: int|
            0 <= j < n ==> #[trigger] engine.subrange(j, j + "/qemu/"@.len()) != "/qemu/"@,
    ensures
        agent_path(engine) == Some(engine.take(n)),
{
    assert forall|agent: Seq<char>, host: Seq<char>| !laid_out(engine, agent, host) by {
        if laid_out(engine, agent, host) {
            ends_are_prefixes_and_suffixes(agent, "/vmtools/agent"@);
            assert(engine == agent + "/qemu/"@ + host + "/vega-virtual-device"@);
        }
    }
    assert(occurs_at(engine, "/qemu/"@, n));
    assert forall|j: int| 0 <= j < n implies !#[trigger] occurs_at(engine, "/qemu/"@, j) by {
        assert(engine.subrange(j, j + "/qemu/"@.len()) != "/qemu/"@);
    }
    assert(first_at(engine, "/qemu/"@, n));
    let k = choose|k: int| first_at(engine, "/qemu/"@, k);
    assert(k == n);
}

/// A socket that a stopped emulator left is named `qmp-socket-`, anything, and
/// `.sock`.
pub proof fn left_sockets_are_told_by_name(name: Seq<char>, id: Seq<char>)
    ensures
        socket_name(name) <==> "qmp-socket-"@.is_prefix_of(name) && ".sock"@.is_suffix_of(name),
        socket_name("qmp-socket-"@ + id + ".sock"@),
{
    ends_are_prefixes_and_suffixes(name, "qmp-socket-"@);
    ends_are_prefixes_and_suffixes(name, ".sock"@);
    let made = "qmp-socket-"@ + id + ".sock"@;
    ends_are_prefixes_and_suffixes(id + ".sock"@, "qmp-socket-"@);
    ends_are_prefixes_and_suffixes("qmp-socket-"@ + id, ".sock"@);
    assert(made =~= "qmp-socket-"@ + (id + ".sock"@));
}

/// The three arguments that enable gRPC on the port go right before the first
/// `-qemu`, or last where there is none; all others stay as they are.
pub proof fn grpc_goes_before_the_passthrough(
    own: Seq<Seq<char>>,
    passed: Seq<Seq<char>>,
    port: u16,
)
    requires
        !own.contains("-qemu"@),
        passed.len() > 0 ==> passed[0] == "-qemu"@,
    ensures
        relaunch_args(own + passed, port) == own + seq![
            "-grpc"@,
            decimal(port as nat),
            "-grpc-use-token"@,
        ] + passed,
{
    let all = own + passed;
    let n = own.len() as int;
    assert forall|j: int| 0 <= j < n implies #[trigger] all[j] != "-qemu"@ by {
        assert(all[j] == own[j]);
        assert(own.contains(own[j]));
    }
    assert(n < all.len() ==> all[n] == passed[0]);
    lemma_passthrough_at(all, n);
    assert(all.take(n) =~= own);
    assert(all.skip(n) =~= passed);
}

/// An error says what it is about: the port, the process, the status, the path
/// or the words that came with it stand in its message as they are.
pub proof fn errors_say_what_they_are_about(e: VvdError)
    ensures
        match e {
            VvdError::NoToken { port } => e@.text() == "gRPC reachable on :"@ + decimal(port as nat)
                + " but no token found in discovery files; cannot authenticate"@,
            VvdError::NoServer { port } => e@.text() == "no gRPC VVD on 127.0.0.1:"@ + decimal(
                port as nat,
            ) + " and --no-autostart was given.\nLaunch one with: <agent>/emulator <args> -grpc "@
                + decimal(port as nat) + " -grpc-use-token"@,
            VvdError::StartFailed { status } => e@.text() == "`vega virtual-device start` failed ("@
                + status@ + ")"@,
            VvdError::StartError { detail } => e@.text() == detail@,
            VvdError::NoEngine => e@.text() == "emulator process not found"@,
            VvdError::ArgvError { detail } => e@.text() == detail@,
            VvdError::NoArgv { pid } => e@.text() == "could not read argv for pid "@ + decimal(
                pid as nat,
            ),
            VvdError::EmptyArgv => e@.text() == "empty emulator argv"@,
            VvdError::NoAgentDir { engine } => e@.text()
                == "cannot derive agent dir from emulator path: "@ + engine@,
            VvdError::NoLauncher { launcher } => e@.text() == "emulator launcher not found at "@
                + launcher@,
            VvdError::LaunchError { detail } => e@.text() == detail@,
            VvdError::GrpcTimeout { port } => e@.text() == "gRPC :"@ + decimal(port as nat)
                + " did not come up within 120s"@,
            VvdError::TokenTimeout { port } => e@.text() == "gRPC up on :"@ + decimal(port as nat)
                + " but no token appeared in discovery files"@,
        },
{
}

/// What was being done is told of exactly the errors that do not say so
/// themselves: those of starting, of reading the command line, of launching,
/// and of waiting for the server.
pub proof fn activities_are_told_where_errors_do_not(e: VvdError)
    ensures
        e is StartFailed || e is StartError <==> e@.activity_text() == Some(
            "vega virtual-device start"@,
        ),
        e is NoEngine || e is ArgvError || e is NoArgv <==> e@.activity_text() == Some(
            "read running emulator argv"@,
        ),
        e is LaunchError <==> e@.activity_text() == Some("spawn emulator launcher"@),
        e is GrpcTimeout <==> e@.activity_text() == Some("waiting for gRPC server to come up"@),
        e is NoToken || e is NoServer || e is EmptyArgv || e is NoAgentDir || e is NoLauncher || e
            is TokenTimeout <==> e@.activity_text() is None,
{
    reveal_strlit("vega virtual-device start");
    reveal_strlit("read running emulator argv");
    reveal_strlit("spawn emulator launcher");
    reveal_strlit("waiting for gRPC server to come up");
    assert("vega virtual-device start"@[0] == 'v');
    assert("read running emulator argv"@[0] == 'r');
    assert("spawn emulator launcher"@[0] == 's');
    assert("waiting for gRPC server to come up"@[0] == 'w');
}

} // verus!
