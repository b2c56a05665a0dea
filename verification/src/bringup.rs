//! Bringing a gRPC server up: attaching to one that is there, or relaunching
//! the running emulator with gRPC enabled.
//!
//! `Bringup` decides; its caller performs the action it asks for and reports
//! what came of it.
use crate::poll::Wait;
use crate::text::{decimal, texts};
use crate::vvd::{
    agent_dir, agent_path, grpc_goes_before_the_passthrough, launcher_args, relaunch_args, ErrorModel,
    GrpcTarget, VvdError,
};
use vstd::prelude::*;

verus! {

/// How long a probe of the gRPC port may take, in milliseconds.
pub const PROBE_TIMEOUT_MS: u64 = 800;

/// How long to wait for the stopped emulator to be gone, in milliseconds.
pub const GONE_TIMEOUT_MS: u64 = 25_000;

/// How often to look whether it is, in milliseconds.
pub const GONE_INTERVAL_MS: u64 = 400;

/// How long to wait for the relaunched server to come up, in milliseconds.
pub const GRPC_TIMEOUT_MS: u64 = 120_000;

/// How often to look whether it is, in milliseconds.
pub const GRPC_INTERVAL_MS: u64 = 500;

/// How long to wait for the relaunched server's token, in milliseconds.
pub const TOKEN_TIMEOUT_MS: u64 = 15_000;

/// How often to look for it, in milliseconds.
pub const TOKEN_INTERVAL_MS: u64 = 300;

/// The wait for the stopped emulator to be gone.
pub open spec fn gone_wait() -> Wait {
    Wait { timeout_ms: GONE_TIMEOUT_MS, interval_ms: GONE_INTERVAL_MS }
}

/// The wait for the relaunched server to come up.
pub open spec fn grpc_wait() -> Wait {
    Wait { timeout_ms: GRPC_TIMEOUT_MS, interval_ms: GRPC_INTERVAL_MS }
}

/// The wait for the relaunched server's token to appear.
pub open spec fn token_wait() -> Wait {
    Wait { timeout_ms: TOKEN_TIMEOUT_MS, interval_ms: TOKEN_INTERVAL_MS }
}

/// What a bringup is waiting for.
#[derive(Debug)]
pub enum Stage {
    Probing,
    Searching,
    Asking,
    Starting,
    Listing,
    Reading { pid: u32 },
    Checking { launcher: String, argv: Vec<String> },
    Stopping { launcher: String, argv: Vec<String> },
    Draining { launcher: String, argv: Vec<String> },
    Cleaning { launcher: String, argv: Vec<String> },
    Launching,
    AwaitingGrpc,
    AwaitingToken,
    Over,
}

/// What a stage says.
pub enum StageModel {
    Probing,
    Searching,
    Asking,
    Starting,
    Listing,
    Reading { pid: u32 },
    Checking { launcher: Seq<char>, argv: Seq<Seq<char>> },
    Stopping { launcher: Seq<char>, argv: Seq<Seq<char>> },
    Draining { launcher: Seq<char>, argv: Seq<Seq<char>> },
    Cleaning { launcher: Seq<char>, argv: Seq<Seq<char>> },
    Launching,
    AwaitingGrpc,
    AwaitingToken,
    Over,
}

impl View for Stage {
    type V = StageModel;

    open spec fn view(&self) -> StageModel {
        match *self {
            Stage::Probing => StageModel::Probing,
            Stage::Searching => StageModel::Searching,
            Stage::Asking => StageModel::Asking,
            Stage::Starting => StageModel::Starting,
            Stage::Listing => StageModel::Listing,
            Stage::Reading { pid } => StageModel::Reading { pid },
            Stage::Checking { launcher, argv } => StageModel::Checking {
                launcher: launcher@,
                argv: texts(argv@),
            },
            Stage::Stopping { launcher, argv } => StageModel::Stopping {
                launcher: launcher@,
                argv: texts(argv@),
            },
            Stage::Draining { launcher, argv } => StageModel::Draining {
                launcher: launcher@,
                argv: texts(argv@),
            },
            Stage::Cleaning { launcher, argv } => StageModel::Cleaning {
                launcher: launcher@,
                argv: texts(argv@),
            },
            Stage::Launching => StageModel::Launching,
            Stage::AwaitingGrpc => StageModel::AwaitingGrpc,
            Stage::AwaitingToken => StageModel::AwaitingToken,
            Stage::Over => StageModel::Over,
        }
    }
}

/// What came of the action that a bringup asked for.
#[derive(Debug)]
pub enum Event {
    /// Whether the gRPC port answers.
    Reachable(bool),
    /// The token of the server, where a discovery file names it.
    Token(Option<String>),
    /// Whether the device is running.
    Running(bool),
    /// The device was started.
    Started,
    /// The process id of the emulator, where there is one.
    Engine(Option<u32>),
    /// The command line of the emulator.
    Argv(Vec<String>),
    /// Whether the launcher exists.
    LauncherExists(bool),
    /// The device was told to stop.
    Stopped,
    /// The emulator is gone, or the wait for that is over.
    Drained,
    /// The sockets that the emulator left were removed.
    Cleaned,
    /// The launcher was run.
    Launched,
    /// The action failed.
    Failed(VvdError),
}

/// What an event says.
pub enum EventModel {
    Reachable(bool),
    Token(Option<Seq<char>>),
    Running(bool),
    Started,
    Engine(Option<u32>),
    Argv(Seq<Seq<char>>),
    LauncherExists(bool),
    Stopped,
    Drained,
    Cleaned,
    Launched,
    Failed(ErrorModel),
}

impl View for Event {
    type V = EventModel;

    open spec fn view(&self) -> EventModel {
        match *self {
            Event::Reachable(yes) => EventModel::Reachable(yes),
            Event::Token(token) => EventModel::Token(
                match token {
                    Some(t) => Some(t@),
                    None => None,
                },
            ),
            Event::Running(yes) => EventModel::Running(yes),
            Event::Started => EventModel::Started,
            Event::Engine(pid) => EventModel::Engine(pid),
            Event::Argv(argv) => EventModel::Argv(texts(argv@)),
            Event::LauncherExists(yes) => EventModel::LauncherExists(yes),
            Event::Stopped => EventModel::Stopped,
            Event::Drained => EventModel::Drained,
            Event::Cleaned => EventModel::Cleaned,
            Event::Launched => EventModel::Launched,
            Event::Failed(e) => EventModel::Failed(e@),
        }
    }
}

/// What a bringup asks its caller to do next.
#[derive(Debug)]
pub enum Action {
    /// Try to connect to the gRPC port.
    Probe { port: u16 },
    /// Look for the token of the server on the port.
    FindToken { port: u16 },
    /// Ask whether the device is running.
    AskStatus,
    /// Start the device.
    Start,
    /// Look for the emulator's process.
    ListEngines,
    /// Read the command line of a process.
    ReadArgv { pid: u32 },
    /// Look whether the launcher exists.
    CheckLauncher { launcher: String },
    /// Stop the device; whether that works does not matter.
    Stop,
    /// Wait for the emulator's process to be gone.
    AwaitGone { wait: Wait },
    /// Remove the sockets that the emulator left.
    CleanSockets,
    /// Run the launcher, detached.
    Launch { launcher: String, args: Vec<String> },
    /// Wait for the gRPC port to answer.
    AwaitGrpc { port: u16, wait: Wait },
    /// Wait for the token of the server on the port.
    AwaitToken { port: u16, wait: Wait },
    /// Nothing: the server is up.
    Done(GrpcTarget),
    /// Nothing: there is no server.
    Fail(VvdError),
}

/// What an action says.
pub enum ActionModel {
    Probe { port: u16 },
    FindToken { port: u16 },
    AskStatus,
    Start,
    ListEngines,
    ReadArgv { pid: u32 },
    CheckLauncher { launcher: Seq<char> },
    Stop,
    AwaitGone { wait: Wait },
    CleanSockets,
    Launch { launcher: Seq<char>, args: Seq<Seq<char>> },
    AwaitGrpc { port: u16, wait: Wait },
    AwaitToken { port: u16, wait: Wait },
    Done { port: u16, token: Seq<char> },
    Fail(ErrorModel),
}

impl View for Action {
    type V = ActionModel;

    open spec fn view(&self) -> ActionModel {
        match *self {
            Action::Probe { port } => ActionModel::Probe { port },
            Action::FindToken { port } => ActionModel::FindToken { port },
            Action::AskStatus => ActionModel::AskStatus,
            Action::Start => ActionModel::Start,
            Action::ListEngines => ActionModel::ListEngines,
            Action::ReadArgv { pid } => ActionModel::ReadArgv { pid },
            Action::CheckLauncher { launcher } => ActionModel::CheckLauncher {
                launcher: launcher@,
            },
            Action::Stop => ActionModel::Stop,
            Action::AwaitGone { wait } => ActionModel::AwaitGone { wait },
            Action::CleanSockets => ActionModel::CleanSockets,
            Action::Launch { launcher, args } => ActionModel::Launch {
                launcher: launcher@,
                args: texts(args@),
            },
            Action::AwaitGrpc { port, wait } => ActionModel::AwaitGrpc { port, wait },
            Action::AwaitToken { port, wait } => ActionModel::AwaitToken { port, wait },
            Action::Done(target) => ActionModel::Done { port: target.port, token: target.token@ },
            Action::Fail(e) => ActionModel::Fail(e@),
        }
    }
}

/// The path of the launcher in the directory `agent`.
pub open spec fn launcher_path(agent: Seq<char>) -> Seq<char> {
    agent + "/emulator"@
}

/// Whether `launcher` is the launcher of the emulator with the command line
/// `argv`.
pub open spec fn launcher_of(argv: Seq<Seq<char>>, launcher: Seq<char>) -> bool {
    argv.len() > 0 && (agent_path(argv[0]) matches Some(agent) && launcher == launcher_path(agent))
}

/// The state of a bringup.
pub struct BringupState {
    pub port: u16,
    pub autostart: bool,
    pub stage: StageModel,
}

impl BringupState {
    /// The state that a bringup starts in.
    pub open spec fn initial(port: u16, autostart: bool) -> BringupState {
        BringupState { port, autostart, stage: StageModel::Probing }
    }

    /// The states that a bringup can be in: the launcher that it has settled
    /// on is that of the emulator whose command line it has read.
    pub open spec fn wf(self) -> bool {
        match self.stage {
            StageModel::Checking { launcher, argv } => launcher_of(argv, launcher),
            StageModel::Stopping { launcher, argv } => launcher_of(argv, launcher),
            StageModel::Draining { launcher, argv } => launcher_of(argv, launcher),
            StageModel::Cleaning { launcher, argv } => launcher_of(argv, launcher),
            _ => true,
        }
    }

    /// Whether an event can come in this state.
    pub open spec fn expects(self, event: EventModel) -> bool {
        match (self.stage, event) {
            (StageModel::Probing, EventModel::Reachable(_)) => true,
            (StageModel::Searching, EventModel::Token(_)) => true,
            (StageModel::Asking, EventModel::Running(_)) => true,
            (StageModel::Starting, EventModel::Started) => true,
            (StageModel::Starting, EventModel::Failed(_)) => true,
            (StageModel::Listing, EventModel::Engine(_)) => true,
            (StageModel::Reading { .. }, EventModel::Argv(_)) => true,
            (StageModel::Reading { .. }, EventModel::Failed(_)) => true,
            (StageModel::Checking { .. }, EventModel::LauncherExists(_)) => true,
            (StageModel::Stopping { .. }, EventModel::Stopped) => true,
            (StageModel::Draining { .. }, EventModel::Drained) => true,
            (StageModel::Cleaning { .. }, EventModel::Cleaned) => true,
            (StageModel::Launching, EventModel::Launched) => true,
            (StageModel::Launching, EventModel::Failed(_)) => true,
            (StageModel::AwaitingGrpc, EventModel::Reachable(_)) => true,
            (StageModel::AwaitingToken, EventModel::Token(_)) => true,
            _ => false,
        }
    }

    /// The state with the stage changed, and an action.
    pub open spec fn to(self, stage: StageModel, action: ActionModel) -> (
        BringupState,
        ActionModel,
    ) {
        (BringupState { stage, ..self }, action)
    }

    /// The end, without a server.
    pub open spec fn fail(self, e: ErrorModel) -> (BringupState, ActionModel) {
        self.to(StageModel::Over, ActionModel::Fail(e))
    }

    /// The end, with the server that `token` authenticates.
    pub open spec fn done(self, token: Seq<char>) -> (BringupState, ActionModel) {
        self.to(StageModel::Over, ActionModel::Done { port: self.port, token })
    }

    /// The next state and action, for an event that this state expects.
    pub open spec fn next(self, event: EventModel) -> (BringupState, ActionModel) {
        match (self.stage, event) {
            (StageModel::Probing, EventModel::Reachable(yes)) => if yes {
                self.to(StageModel::Searching, ActionModel::FindToken { port: self.port })
            } else if self.autostart {
                self.to(StageModel::Asking, ActionModel::AskStatus)
            } else {
                self.fail(ErrorModel::NoServer { port: self.port })
            },
            (StageModel::Searching, EventModel::Token(token)) => match token {
                Some(t) => self.done(t),
                None => if self.autostart {
                    self.to(StageModel::Asking, ActionModel::AskStatus)
                } else {
                    self.fail(ErrorModel::NoToken { port: self.port })
                },
            },
            (StageModel::Asking, EventModel::Running(yes)) => if yes {
                self.to(StageModel::Listing, ActionModel::ListEngines)
            } else {
                self.to(StageModel::Starting, ActionModel::Start)
            },
            (StageModel::Starting, EventModel::Started) => self.to(
                StageModel::Listing,
                ActionModel::ListEngines,
            ),
            (StageModel::Listing, EventModel::Engine(pid)) => match pid {
                Some(pid) => self.to(
                    StageModel::Reading { pid },
                    ActionModel::ReadArgv { pid },
                ),
                None => self.fail(ErrorModel::NoEngine),
            },
            (StageModel::Reading { .. }, EventModel::Argv(argv)) => if argv.len() == 0 {
                self.fail(ErrorModel::EmptyArgv)
            } else {
                match agent_path(argv[0]) {
                    Some(agent) => {
                        let launcher = launcher_path(agent);
                        self.to(
                            StageModel::Checking { launcher, argv },
                            ActionModel::CheckLauncher { launcher },
                        )
                    },
                    None => self.fail(ErrorModel::NoAgentDir { engine: argv[0] }),
                }
            },
            (StageModel::Checking { launcher, argv }, EventModel::LauncherExists(yes)) => if yes {
                self.to(StageModel::Stopping { launcher, argv }, ActionModel::Stop)
            } else {
                self.fail(ErrorModel::NoLauncher { launcher })
            },
            (StageModel::Stopping { launcher, argv }, EventModel::Stopped) => self.to(
                StageModel::Draining { launcher, argv },
                ActionModel::AwaitGone { wait: gone_wait() },
            ),
            (StageModel::Draining { launcher, argv }, EventModel::Drained) => self.to(
                StageModel::Cleaning { launcher, argv },
                ActionModel::CleanSockets,
            ),
            (StageModel::Cleaning { launcher, argv }, EventModel::Cleaned) => self.to(
                StageModel::Launching,
                ActionModel::Launch {
                    launcher,
                    args: relaunch_args(argv.drop_first(), self.port),
                },
            ),
            (StageModel::Launching, EventModel::Launched) => self.to(
                StageModel::AwaitingGrpc,
                ActionModel::AwaitGrpc { port: self.port, wait: grpc_wait() },
            ),
            (StageModel::AwaitingGrpc, EventModel::Reachable(yes)) => if yes {
                self.to(
                    StageModel::AwaitingToken,
                    ActionModel::AwaitToken { port: self.port, wait: token_wait() },
                )
            } else {
                self.fail(ErrorModel::GrpcTimeout { port: self.port })
            },
            (StageModel::AwaitingToken, EventModel::Token(token)) => match token {
                Some(t) => self.done(t),
                None => self.fail(ErrorModel::TokenTimeout { port: self.port }),
            },
            (_, EventModel::Failed(e)) => self.fail(e),
            _ => arbitrary(),
        }
    }
}

/// A bringup: how far it has come.
#[derive(Debug)]
pub struct Bringup {
    port: u16,
    autostart: bool,
    stage: Stage,
}

impl View for Bringup {
    type V = BringupState;

    closed spec fn view(&self) -> BringupState {
        BringupState { port: self.port, autostart: self.autostart, stage: self.stage@ }
    }
}

impl Bringup {
    /// A bringup of the server on `port`, whose first action is to probe it.
    /// Without `autostart`, a server is attached to or not at all.
    pub fn new(port: u16, autostart: bool) -> (r: (Bringup, Action))
        ensures
            r.0@ == BringupState::initial(port, autostart),
            r.0@.wf(),
            r.1@ == (ActionModel::Probe { port }),
    {
        (Bringup { port, autostart, stage: Stage::Probing }, Action::Probe { port })
    }

    /// Whether an event can come in this state.
    pub fn accepts(&self, event: &Event) -> (r: bool)
        ensures
            r == self@.expects(event@),
    {
        match (&self.stage, event) {
            (Stage::Probing, Event::Reachable(_)) => true,
            (Stage::Searching, Event::Token(_)) => true,
            (Stage::Asking, Event::Running(_)) => true,
            (Stage::Starting, Event::Started) => true,
            (Stage::Starting, Event::Failed(_)) => true,
            (Stage::Listing, Event::Engine(_)) => true,
            (Stage::Reading { .. }, Event::Argv(_)) => true,
            (Stage::Reading { .. }, Event::Failed(_)) => true,
            (Stage::Checking { .. }, Event::LauncherExists(_)) => true,
            (Stage::Stopping { .. }, Event::Stopped) => true,
            (Stage::Draining { .. }, Event::Drained) => true,
            (Stage::Cleaning { .. }, Event::Cleaned) => true,
            (Stage::Launching, Event::Launched) => true,
            (Stage::Launching, Event::Failed(_)) => true,
            (Stage::AwaitingGrpc, Event::Reachable(_)) => true,
            (Stage::AwaitingToken, Event::Token(_)) => true,
            _ => false,
        }
    }

    fn to(self, stage: Stage, action: Action) -> (r: (Bringup, Action))
        ensures
            (r.0@, r.1@) == self@.to(stage@, action@),
    {
        (Bringup { port: self.port, autostart: self.autostart, stage }, action)
    }

    fn fail(self, e: VvdError) -> (r: (Bringup, Action))
        ensures
            (r.0@, r.1@) == self@.fail(e@),
    {
        self.to(Stage::Over, Action::Fail(e))
    }

    fn done(self, token: String) -> (r: (Bringup, Action))
        ensures
            (r.0@, r.1@) == self@.done(token@),
    {
        let port: u16 = self.port;
        self.to(Stage::Over, Action::Done(GrpcTarget { port, token }))
    }

    /// The command line has been read: settle on the launcher.
    fn settle(self, argv: Vec<String>) -> (r: (Bringup, Action))
        requires
            self@.stage is Reading,
        ensures
            (r.0@, r.1@) == self@.next(EventModel::Argv(texts(argv@))),
            r.0@.wf(),
    {
        if argv.len() == 0 {
            return self.fail(VvdError::EmptyArgv);
        }
        assert(texts(argv@)[0] == argv@[0]@);
        match agent_dir(argv[0].as_str()) {
            Ok(agent) => {
                let mut launcher = agent;
                launcher.append("/emulator");
                let check = launcher.clone();
                self.to(
                    Stage::Checking { launcher, argv },
                    Action::CheckLauncher { launcher: check },
                )
            },
            Err(e) => self.fail(e),
        }
    }

    /// Takes note of what came of the last action, and decides on the next.
    pub fn step(self, event: Event) -> (r: (Bringup, Action))
        requires
            self@.wf(),
            self@.expects(event@),
        ensures
            (r.0@, r.1@) == self@.next(event@),
            r.0@.wf(),
    {
        let Bringup { port, autostart, stage } = self;
        let this = Bringup { port, autostart, stage: Stage::Over };
        match (stage, event) {
            (Stage::Probing, Event::Reachable(yes)) => {
                if yes {
                    this.to(Stage::Searching, Action::FindToken { port })
                } else if autostart {
                    this.to(Stage::Asking, Action::AskStatus)
                } else {
                    this.fail(VvdError::NoServer { port })
                }
            },
            (Stage::Searching, Event::Token(token)) => match token {
                Some(t) => this.done(t),
                None => {
                    if autostart {
                        this.to(Stage::Asking, Action::AskStatus)
                    } else {
                        this.fail(VvdError::NoToken { port })
                    }
                },
            },
            (Stage::Asking, Event::Running(yes)) => {
                if yes {
                    this.to(Stage::Listing, Action::ListEngines)
                } else {
                    this.to(Stage::Starting, Action::Start)
                }
            },
            (Stage::Starting, Event::Started) => this.to(Stage::Listing, Action::ListEngines),
            (Stage::Listing, Event::Engine(engine)) => match engine {
                Some(pid) => this.to(Stage::Reading { pid }, Action::ReadArgv { pid }),
                None => this.fail(VvdError::NoEngine),
            },
            (Stage::Reading { pid }, Event::Argv(argv)) => {
                let reading = Bringup { port, autostart, stage: Stage::Reading { pid } };
                reading.settle(argv)
            },
            (Stage::Checking { launcher, argv }, Event::LauncherExists(yes)) => {
                if yes {
                    this.to(Stage::Stopping { launcher, argv }, Action::Stop)
                } else {
                    this.fail(VvdError::NoLauncher { launcher })
                }
            },
            (Stage::Stopping { launcher, argv }, Event::Stopped) => {
                let wait = Wait { timeout_ms: GONE_TIMEOUT_MS, interval_ms: GONE_INTERVAL_MS };
                this.to(Stage::Draining { launcher, argv }, Action::AwaitGone { wait })
            },
            (Stage::Draining { launcher, argv }, Event::Drained) => this.to(
                Stage::Cleaning { launcher, argv },
                Action::CleanSockets,
            ),
            (Stage::Cleaning { launcher, argv }, Event::Cleaned) => {
                let args = launcher_args(&argv, port);
                this.to(Stage::Launching, Action::Launch { launcher, args })
            },
            (Stage::Launching, Event::Launched) => {
                let wait = Wait { timeout_ms: GRPC_TIMEOUT_MS, interval_ms: GRPC_INTERVAL_MS };
                this.to(Stage::AwaitingGrpc, Action::AwaitGrpc { port, wait })
            },
            (Stage::AwaitingGrpc, Event::Reachable(yes)) => {
                if yes {
                    let wait = Wait {
                        timeout_ms: TOKEN_TIMEOUT_MS,
                        interval_ms: TOKEN_INTERVAL_MS,
                    };
                    this.to(Stage::AwaitingToken, Action::AwaitToken { port, wait })
                } else {
                    this.fail(VvdError::GrpcTimeout { port })
                }
            },
            (Stage::AwaitingToken, Event::Token(token)) => match token {
                Some(t) => this.done(t),
                None => this.fail(VvdError::TokenTimeout { port }),
            },
            (_, Event::Failed(e)) => this.fail(e),
            _ => {
                assert(false);
                this.to(Stage::Over, Action::AskStatus)
            },
        }
    }
}

/// The state after a sequence of events.
pub open spec fn after(s: BringupState, events: Seq<EventModel>) -> BringupState
    decreases events.len(),
{
    if events.len() == 0 {
        s
    } else {
        after(s, events.drop_last()).next(events.last()).0
    }
}

/// Whether each event of a sequence can come when it does.
pub open spec fn possible(s: BringupState, events: Seq<EventModel>) -> bool
    decreases events.len(),
{
    events.len() > 0 ==> possible(s, events.drop_last()) && after(s, events.drop_last()).expects(
        events.last(),
    )
}

/// The actions that a sequence of events leads to, one for each event.
pub open spec fn actions(s: BringupState, events: Seq<EventModel>) -> Seq<ActionModel>
    decreases events.len(),
{
    if events.len() == 0 {
        Seq::empty()
    } else {
        actions(s, events.drop_last()).push(after(s, events.drop_last()).next(events.last()).1)
    }
}

impl ActionModel {
    /// Whether the action changes what is running.
    pub open spec fn touches_the_device(self) -> bool {
        self is Start || self is Stop || self is CleanSockets || self is Launch
    }
}

impl StageModel {
    /// Whether a bringup that may not start anything can be in this stage.
    pub open spec fn before_relaunch(self) -> bool {
        self is Probing || self is Searching || self is Over
    }

    /// The launcher and the command line that have been settled on, while the
    /// launch is still ahead.
    pub open spec fn settled(self) -> Option<(Seq<char>, Seq<Seq<char>>)> {
        match self {
            StageModel::Checking { launcher, argv } => Some((launcher, argv)),
            StageModel::Stopping { launcher, argv } => Some((launcher, argv)),
            StageModel::Draining { launcher, argv } => Some((launcher, argv)),
            StageModel::Cleaning { launcher, argv } => Some((launcher, argv)),
            _ => None,
        }
    }

    /// How many events can still come, at most.
    pub open spec fn rank(self) -> nat {
        match self {
            StageModel::Probing => 13,
            StageModel::Searching => 12,
            StageModel::Asking => 11,
            StageModel::Starting => 10,
            StageModel::Listing => 9,
            StageModel::Reading { .. } => 8,
            StageModel::Checking { .. } => 7,
            StageModel::Stopping { .. } => 6,
            StageModel::Draining { .. } => 5,
            StageModel::Cleaning { .. } => 4,
            StageModel::Launching => 3,
            StageModel::AwaitingGrpc => 2,
            StageModel::AwaitingToken => 1,
            StageModel::Over => 0,
        }
    }
}

/// A server that answers and whose token is known is attached to, and the
/// device is left alone, whether or not one may be started.
pub proof fn known_server_is_attached_to(port: u16, autostart: bool, token: Seq<char>)
    ensures
        ({
            let events = seq![EventModel::Reachable(true), EventModel::Token(Some(token))];
            let s = BringupState::initial(port, autostart);
            &&& possible(s, events)
            &&& actions(s, events) == seq![
                ActionModel::FindToken { port },
                ActionModel::Done { port, token },
            ]
        }),
{
    reveal_with_fuel(possible, 3);
    reveal_with_fuel(actions, 3);
    reveal_with_fuel(after, 3);
    let events = seq![EventModel::Reachable(true), EventModel::Token(Some(token))];
    assert(events.drop_last() =~= seq![EventModel::Reachable(true)]);
    assert(events.drop_last().drop_last() =~= Seq::<EventModel>::empty());
    assert(actions(BringupState::initial(port, autostart), events) =~= seq![
        ActionModel::FindToken { port },
        ActionModel::Done { port, token },
    ]);
}

/// Without leave to start one, the device is left alone whatever happens.
pub proof fn without_autostart_the_device_is_left_alone(port: u16, events: Seq<EventModel>)
    requires
        possible(BringupState::initial(port, false), events),
    ensures
        after(BringupState::initial(port, false), events).stage.before_relaunch(),
        !after(BringupState::initial(port, false), events).autostart,
        forall|i: int|
            0 <= i < events.len() ==> !(#[trigger] actions(
                BringupState::initial(port, false),
                events,
            )[i]).touches_the_device(),
    decreases events.len(),
{
    if events.len() > 0 {
        without_autostart_the_device_is_left_alone(port, events.drop_last());
        lemma_actions_len(BringupState::initial(port, false), events.drop_last());
    }
}

proof fn lemma_actions_len(s: BringupState, events: Seq<EventModel>)
    ensures
        actions(s, events).len() == events.len(),
    decreases events.len(),
{
    if events.len() > 0 {
        lemma_actions_len(s, events.drop_last());
    }
}

/// Whatever happens, a bringup keeps to its port and its leave to start: every
/// action that names a port names that one, whether it is probed, waited for,
/// searched for a token, or ended with.
pub proof fn bringup_keeps_its_port(port: u16, autostart: bool, events: Seq<EventModel>)
    requires
        possible(BringupState::initial(port, autostart), events),
    ensures
        ({
            let s = after(BringupState::initial(port, autostart), events);
            s.wf() && s.port == port && s.autostart == autostart
        }),
        actions(BringupState::initial(port, autostart), events).len() == events.len(),
        forall|i: int|
            0 <= i < events.len() ==> match #[trigger] actions(
                BringupState::initial(port, autostart),
                events,
            )[i] {
                ActionModel::Probe { port: p } => p == port,
                ActionModel::FindToken { port: p } => p == port,
                ActionModel::AwaitGrpc { port: p, .. } => p == port,
                ActionModel::AwaitToken { port: p, .. } => p == port,
                ActionModel::Done { port: p, .. } => p == port,
                _ => true,
            },
    decreases events.len(),
{
    if events.len() > 0 {
        bringup_keeps_its_port(port, autostart, events.drop_last());
        let s = BringupState::initial(port, autostart);
        let earlier = actions(s, events.drop_last());
        assert forall|i: int| 0 <= i < events.len() implies match #[trigger] actions(s, events)[i] {
            ActionModel::Probe { port: p } => p == port,
            ActionModel::FindToken { port: p } => p == port,
            ActionModel::AwaitGrpc { port: p, .. } => p == port,
            ActionModel::AwaitToken { port: p, .. } => p == port,
            ActionModel::Done { port: p, .. } => p == port,
            _ => true,
        } by {
            if i < events.len() - 1 {
                assert(actions(s, events)[i] == earlier[i]);
            }
        }
    }
}

/// The running device is stopped only once its launcher is known to exist.
pub proof fn stopping_needs_a_launcher(s: BringupState, event: EventModel)
    requires
        s.expects(event),
        s.next(event).1 is Stop,
    ensures
        s.stage is Checking,
        event == EventModel::LauncherExists(true),
{
}

/// Whether the device has been told to stop among some actions.
pub open spec fn stopped(actions: Seq<ActionModel>) -> bool {
    exists|i: int| 0 <= i < actions.len() && #[trigger] actions[i] is Stop
}

proof fn lemma_settled(s: BringupState, events: Seq<EventModel>)
    requires
        s.stage == StageModel::Probing,
        possible(s, events),
    ensures
        after(s, events).wf(),
        after(s, events).port == s.port,
        after(s, events).stage.settled() matches Some((launcher, argv)) ==> launcher_of(
            argv,
            launcher,
        ) && events.contains(EventModel::Argv(argv)),
        after(s, events).stage is Stopping || after(s, events).stage is Draining || after(
            s,
            events,
        ).stage is Cleaning ==> stopped(actions(s, events)),
    decreases events.len(),
{
    if events.len() > 0 {
        let earlier = events.drop_last();
        lemma_settled(s, earlier);
        lemma_actions_len(s, earlier);
        let (before, now) = (after(s, earlier), after(s, events));
        if let Some((launcher, argv)) = now.stage.settled() {
            if before.stage is Reading {
                assert(events[events.len() - 1] == EventModel::Argv(argv));
            } else {
                let k = choose|k: int|
                    0 <= k < earlier.len() && earlier[k] == EventModel::Argv(argv);
                assert(events[k] == EventModel::Argv(argv));
            }
        }
        let (old_actions, new_actions) = (actions(s, earlier), actions(s, events));
        if stopped(old_actions) {
            let i = choose|i: int| 0 <= i < old_actions.len() && #[trigger] old_actions[i] is Stop;
            assert(new_actions[i] is Stop);
        } else if now.stage is Stopping {
            assert(new_actions[events.len() - 1] is Stop);
        }
    }
}

/// What is launched is the instance that was running: the launcher is that of
/// the emulator whose command line was read, its arguments are those of the
/// command line with gRPC enabled on the port, and the device was stopped
/// before.
pub proof fn the_same_instance_is_launched(
    port: u16,
    autostart: bool,
    events: Seq<EventModel>,
    event: EventModel,
)
    requires
        possible(BringupState::initial(port, autostart), events.push(event)),
    ensures
        ({
            let s = BringupState::initial(port, autostart);
            after(s, events).next(event).1 matches ActionModel::Launch { launcher, args } ==> {
                &&& stopped(actions(s, events))
                &&& exists|argv: Seq<Seq<char>>|
                    {
                        &&& #[trigger] events.contains(EventModel::Argv(argv))
                        &&& launcher_of(argv, launcher)
                        &&& args == relaunch_args(argv.drop_first(), port)
                    }
            }
        }),
{
    let s = BringupState::initial(port, autostart);
    assert(events.push(event).drop_last() == events);
    lemma_settled(s, events);
    if let StageModel::Cleaning { launcher, argv } = after(s, events).stage {
        assert(events.contains(EventModel::Argv(argv)));
    }
}

/// A bringup ends: no more than thirteen events can come, and once none can
/// come it has ended, with a server or with an error.
pub proof fn bringup_ends(port: u16, autostart: bool, events: Seq<EventModel>)
    requires
        possible(BringupState::initial(port, autostart), events),
    ensures
        events.len() + after(BringupState::initial(port, autostart), events).stage.rank() <= 13,
        events.len() > 0 && after(BringupState::initial(port, autostart), events).stage is Over
            ==> actions(BringupState::initial(port, autostart), events).last() is Done || actions(
            BringupState::initial(port, autostart),
            events,
        ).last() is Fail,
    decreases events.len(),
{
    if events.len() > 0 {
        bringup_ends(port, autostart, events.drop_last());
    }
}

/// In every state but the last some event is expected.
pub proof fn bringup_is_never_stuck(s: BringupState)
    requires
        s.stage !is Over,
    ensures
        exists|event: EventModel| s.expects(event),
{
    let event = match s.stage {
        StageModel::Probing | StageModel::AwaitingGrpc => EventModel::Reachable(true),
        StageModel::Searching | StageModel::AwaitingToken => EventModel::Token(None),
        StageModel::Asking => EventModel::Running(true),
        StageModel::Starting => EventModel::Started,
        StageModel::Listing => EventModel::Engine(None),
        StageModel::Reading { .. } => EventModel::Argv(Seq::empty()),
        StageModel::Checking { .. } => EventModel::LauncherExists(true),
        StageModel::Stopping { .. } => EventModel::Stopped,
        StageModel::Draining { .. } => EventModel::Drained,
        StageModel::Cleaning { .. } => EventModel::Cleaned,
        StageModel::Launching => EventModel::Launched,
        StageModel::Over => arbitrary(),
    };
    assert(s.expects(event));
}

/// How a bringup begins: the port is probed. A server that answers is asked for
/// its token, and attached to where the token is known. Where there is no
/// server, or no token, the device is asked about if one may be started, and
/// otherwise the bringup fails for that reason.
pub proof fn bringup_begins_with_what_is_there(port: u16, autostart: bool, token: Seq<char>)
    ensures
        ({
            let s = BringupState::initial(port, autostart);
            let (none, unreachable) = s.next(EventModel::Reachable(false));
            let (t, search) = s.next(EventModel::Reachable(true));
            let (_, attached) = t.next(EventModel::Token(Some(token)));
            let (_, unknown) = t.next(EventModel::Token(None));
            &&& s.expects(EventModel::Reachable(true)) && s.expects(EventModel::Reachable(false))
            &&& search == ActionModel::FindToken { port }
            &&& t.expects(EventModel::Token(Some(token))) && t.expects(EventModel::Token(None))
            &&& attached == ActionModel::Done { port, token }
            &&& unreachable == if autostart {
                ActionModel::AskStatus
            } else {
                ActionModel::Fail(ErrorModel::NoServer { port })
            }
            &&& unknown == if autostart {
                ActionModel::AskStatus
            } else {
                ActionModel::Fail(ErrorModel::NoToken { port })
            }
        }),
{
}

/// The state in which a bringup that may start a device has asked whether one
/// is running: the server did not answer, or, with `answers`, its token was not
/// known.
pub open spec fn asking(port: u16, answers: bool) -> BringupState {
    let s = BringupState::initial(port, true);
    if answers {
        s.next(EventModel::Reachable(true)).0.next(EventModel::Token(None)).0
    } else {
        s.next(EventModel::Reachable(false)).0
    }
}

/// The state in which a bringup looks for the emulator: the device is running,
/// or, without `running`, was started.
pub open spec fn looking(port: u16, answers: bool, running: bool) -> BringupState {
    let s = asking(port, answers);
    if running {
        s.next(EventModel::Running(true)).0
    } else {
        s.next(EventModel::Running(false)).0.next(EventModel::Started).0
    }
}

/// A device that is running is left as it is while the emulator is looked for,
/// and one that is not is started first.
pub proof fn device_is_started_where_it_is_not_running(port: u16, answers: bool, e: ErrorModel)
    ensures
        ({
            let s = asking(port, answers);
            let (_, running) = s.next(EventModel::Running(true));
            let (t, stopped) = s.next(EventModel::Running(false));
            &&& s.expects(EventModel::Running(true)) && s.expects(EventModel::Running(false))
            &&& running is ListEngines
            &&& stopped is Start
            &&& t.expects(EventModel::Started) && t.expects(EventModel::Failed(e))
            &&& t.next(EventModel::Started).1 is ListEngines
            &&& t.next(EventModel::Failed(e)).1 == ActionModel::Fail(e)
        }),
{
}

/// How the instance is relaunched, whichever way it was found. The command line
/// of the emulator that was found is read. Its launcher is `emulator` in the
/// directory of the agent, which must exist. Then the device is stopped, its
/// end is waited for, its sockets are removed, and the launcher is run with the
/// instance's arguments and the three that enable gRPC on the port before those
/// that are passed through to QEMU. The server is waited for on that port, then
/// its token, and the bringup ends with them.
pub proof fn instance_is_relaunched_on_the_port(
    port: u16,
    answers: bool,
    running: bool,
    pid: u32,
    engine: Seq<char>,
    agent: Seq<char>,
    own: Seq<Seq<char>>,
    passed: Seq<Seq<char>>,
    token: Seq<char>,
)
    requires
        agent_path(engine) == Some(agent),
        !own.contains("-qemu"@),
        passed.len() > 0 ==> passed[0] == "-qemu"@,
    ensures
        ({
            let argv = seq![engine] + own + passed;
            let s0 = looking(port, answers, running);
            let (s1, a1) = s0.next(EventModel::Engine(Some(pid)));
            let (s2, a2) = s1.next(EventModel::Argv(argv));
            let (s3, a3) = s2.next(EventModel::LauncherExists(true));
            let (s4, a4) = s3.next(EventModel::Stopped);
            let (s5, a5) = s4.next(EventModel::Drained);
            let (s6, a6) = s5.next(EventModel::Cleaned);
            let (s7, a7) = s6.next(EventModel::Launched);
            let (s8, a8) = s7.next(EventModel::Reachable(true));
            let (s9, a9) = s8.next(EventModel::Token(Some(token)));
            &&& s0.expects(EventModel::Engine(Some(pid)))
            &&& a1 == ActionModel::ReadArgv { pid }
            &&& s1.expects(EventModel::Argv(argv))
            &&& a2 == ActionModel::CheckLauncher { launcher: agent + "/emulator"@ }
            &&& s2.expects(EventModel::LauncherExists(true))
            &&& a3 is Stop
            &&& s3.expects(EventModel::Stopped)
            &&& a4 == ActionModel::AwaitGone {
                wait: Wait { timeout_ms: 25_000, interval_ms: 400 },
            }
            &&& s4.expects(EventModel::Drained)
            &&& a5 is CleanSockets
            &&& s5.expects(EventModel::Cleaned)
            &&& a6 == ActionModel::Launch {
                launcher: agent + "/emulator"@,
                args: own + seq!["-grpc"@, decimal(port as nat), "-grpc-use-token"@] + passed,
            }
            &&& s6.expects(EventModel::Launched)
            &&& a7 == ActionModel::AwaitGrpc {
                port,
                wait: Wait { timeout_ms: 120_000, interval_ms: 500 },
            }
            &&& s7.expects(EventModel::Reachable(true))
            &&& a8 == ActionModel::AwaitToken {
                port,
                wait: Wait { timeout_ms: 15_000, interval_ms: 300 },
            }
            &&& s8.expects(EventModel::Token(Some(token)))
            &&& a9 == ActionModel::Done { port, token }
            &&& s9.stage is Over
        }),
{
    let argv = seq![engine] + own + passed;
    assert(argv[0] == engine);
    assert(argv.drop_first() =~= own + passed);
    grpc_goes_before_the_passthrough(own, passed, port);
}

/// Where a relaunch ends early: without an emulator, without a command line,
/// with one from which no launcher can be told, without the launcher, when the
/// server does not come up, or its token does not appear. The error says which,
/// with the path or the port; an error that an action met with is passed on.
pub proof fn relaunch_fails_for_what_went_wrong(
    port: u16,
    answers: bool,
    running: bool,
    pid: u32,
    argv: Seq<Seq<char>>,
    e: ErrorModel,
)
    ensures
        ({
            let s0 = looking(port, answers, running);
            let s1 = s0.next(EventModel::Engine(Some(pid))).0;
            let s2 = s1.next(EventModel::Argv(argv)).0;
            let s3 = s2.next(EventModel::LauncherExists(true)).0;
            let s4 = s3.next(EventModel::Stopped).0;
            let s5 = s4.next(EventModel::Drained).0;
            let s6 = s5.next(EventModel::Cleaned).0;
            let s7 = s6.next(EventModel::Launched).0;
            let s8 = s7.next(EventModel::Reachable(true)).0;
            &&& s0.expects(EventModel::Engine(None))
            &&& s0.next(EventModel::Engine(None)).1 == ActionModel::Fail(ErrorModel::NoEngine)
            &&& s1.expects(EventModel::Argv(argv)) && s1.expects(EventModel::Failed(e))
            &&& s1.next(EventModel::Failed(e)).1 == ActionModel::Fail(e)
            &&& argv.len() == 0 ==> s1.next(EventModel::Argv(argv)).1 == ActionModel::Fail(
                ErrorModel::EmptyArgv,
            )
            &&& argv.len() > 0 && agent_path(argv[0]) is None ==> s1.next(EventModel::Argv(argv)).1
                == ActionModel::Fail(ErrorModel::NoAgentDir { engine: argv[0] })
            &&& argv.len() > 0 && agent_path(argv[0]) is Some ==> {
                &&& s2.expects(EventModel::LauncherExists(false))
                &&& s2.next(EventModel::LauncherExists(false)).1 == ActionModel::Fail(
                    ErrorModel::NoLauncher { launcher: agent_path(argv[0])->0 + "/emulator"@ },
                )
                &&& s6.expects(EventModel::Failed(e))
                &&& s6.next(EventModel::Failed(e)).1 == ActionModel::Fail(e)
                &&& s7.expects(EventModel::Reachable(false))
                &&& s7.next(EventModel::Reachable(false)).1 == ActionModel::Fail(
                    ErrorModel::GrpcTimeout { port },
                )
                &&& s8.expects(EventModel::Token(None))
                &&& s8.next(EventModel::Token(None)).1 == ActionModel::Fail(
                    ErrorModel::TokenTimeout { port },
                )
            }
        }),
{
}

/// A bringup is over exactly when it says so: with a server, or with an error.
pub proof fn bringup_is_over_when_it_says_so(s: BringupState, event: EventModel)
    requires
        s.expects(event),
    ensures
        s.next(event).0.stage is Over <==> s.next(event).1 is Done || s.next(event).1 is Fail,
        s.stage !is Over,
{
}

/// What an event holds is what the bringup is told.
pub proof fn events_are_told_as_they_are(event: Event)
    ensures
        match event {
            Event::Reachable(yes) => event@ == EventModel::Reachable(yes),
            Event::Token(Some(token)) => event@ == EventModel::Token(Some(token@)),
            Event::Token(None) => event@ == EventModel::Token(None),
            Event::Running(yes) => event@ == EventModel::Running(yes),
            Event::Started => event@ is Started,
            Event::Engine(pid) => event@ == EventModel::Engine(pid),
            Event::Argv(argv) => {
                &&& event@ matches EventModel::Argv(words)
                &&& words.len() == argv@.len()
                &&& forall|i: int| 0 <= i < argv@.len() ==> #[trigger] words[i] == argv@[i]@
            },
            Event::LauncherExists(yes) => event@ == EventModel::LauncherExists(yes),
            Event::Stopped => event@ is Stopped,
            Event::Drained => event@ is Drained,
            Event::Cleaned => event@ is Cleaned,
            Event::Launched => event@ is Launched,
            Event::Failed(e) => event@ == EventModel::Failed(e@),
        },
{
}

/// What the bringup decides on is what its caller is asked to do.
pub proof fn actions_are_asked_for_as_decided(action: Action)
    ensures
        match action@ {
            ActionModel::Probe { port } => action == (Action::Probe { port }),
            ActionModel::FindToken { port } => action == (Action::FindToken { port }),
            ActionModel::AskStatus => action is AskStatus,
            ActionModel::Start => action is Start,
            ActionModel::ListEngines => action is ListEngines,
            ActionModel::ReadArgv { pid } => action == (Action::ReadArgv { pid }),
            ActionModel::CheckLauncher { launcher: l } => {
                &&& action matches Action::CheckLauncher { launcher }
                &&& launcher@ == l
            },
            ActionModel::Stop => action is Stop,
            ActionModel::AwaitGone { wait } => action == (Action::AwaitGone { wait }),
            ActionModel::CleanSockets => action is CleanSockets,
            ActionModel::Launch { launcher: l, args: a } => {
                &&& action matches Action::Launch { launcher, args }
                &&& launcher@ == l
                &&& args@.len() == a.len()
                &&& forall|i: int| 0 <= i < a.len() ==> #[trigger] args@[i]@ == a[i]
            },
            ActionModel::AwaitGrpc { port, wait } => action == (Action::AwaitGrpc { port, wait }),
            ActionModel::AwaitToken { port, wait } => action == (Action::AwaitToken { port, wait }),
            ActionModel::Done { port, token } => {
                &&& action matches Action::Done(target)
                &&& target.port == port && target.token@ == token
            },
            ActionModel::Fail(e) => action matches Action::Fail(error) && error@ == e,
        },
{
}

/// A probe is given 800 milliseconds, so every wait has time for its first one.
pub proof fn every_wait_has_time_for_a_probe()
    ensures
        PROBE_TIMEOUT_MS == 800,
        PROBE_TIMEOUT_MS < gone_wait().timeout_ms,
        PROBE_TIMEOUT_MS < grpc_wait().timeout_ms,
        PROBE_TIMEOUT_MS < token_wait().timeout_ms,
{
}

} // verus!
