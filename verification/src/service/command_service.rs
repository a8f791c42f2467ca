//! The catalog of commands and the decisions around running one of them:
//! who may see a command, who is admitted to run it, and what a finished run
//! reports.

use crate::config::command_views;
use crate::config::texts;
use crate::config::CommandConfiguration;
use crate::config::CommandInfo;
use crate::config::CommandInfoView;
use crate::utils::time::elapsed_between;
use crate::utils::time::saturating_elapsed;
use crate::utils::time::truncate_to_milliseconds;
use crate::utils::time::whole_milliseconds;
use std::time::Duration;
use vstd::prelude::*;
use vstd::string::StringExecFns;

verus! {

/// The identifier under which a caller asks for a command.
#[derive(Debug, PartialEq, Eq, Hash, Ord, PartialOrd)]
pub struct CommandID(pub String);

impl Clone for CommandID {
    fn clone(&self) -> (copy: Self)
        ensures
            copy.0@ == self.0@,
    {
        CommandID(self.0.clone())
    }
}

/// Why a command was not run.
#[derive(Clone, Copy, Debug, PartialEq, Eq, Structural)]
pub enum RunCommandError {
    /// There is no such command, or the caller may not know of it.
    CommandNotFound,
    /// No slot became free in time.
    SemaphoreAcquireError,
}

/// The status that the server answers a refused run with.
pub open spec fn status_of(error: RunCommandError) -> u16 {
    match error {
        RunCommandError::CommandNotFound => 404,
        RunCommandError::SemaphoreAcquireError => 429,
    }
}

impl RunCommandError {
    /// The HTTP status that reports the error: "not found" for a command
    /// that does not exist or that the caller may not know of, "too many
    /// requests" for a run that found no free slot in time.
    pub fn status_code(&self) -> (status: u16)
        ensures
            status == status_of(*self),
    {
        match self {
            RunCommandError::CommandNotFound => 404,
            RunCommandError::SemaphoreAcquireError => 429,
        }
    }
}

/// A command as callers see it: without the mark that hides it from
/// external callers.
#[derive(Debug)]
pub struct CommandInfoDTO {
    pub id: String,
    pub description: String,
    pub command: String,
    pub args: Vec<String>,
}

/// What a [`CommandInfoDTO`] holds, as plain values.
pub struct CommandInfoDTOView {
    pub id: Seq<char>,
    pub description: Seq<char>,
    pub command: Seq<char>,
    pub args: Seq<Seq<char>>,
}

impl CommandInfoDTOView {
    /// What callers see of the command `command_info`.
    pub open spec fn of(command_info: CommandInfoView) -> Self {
        CommandInfoDTOView {
            id: command_info.id,
            description: command_info.description,
            command: command_info.command,
            args: command_info.args,
        }
    }
}

impl View for CommandInfoDTO {
    type V = CommandInfoDTOView;

    open spec fn view(&self) -> CommandInfoDTOView {
        CommandInfoDTOView {
            id: self.id@,
            description: self.description@,
            command: self.command@,
            args: texts(self.args@),
        }
    }
}

/// The views of a list of commands as callers see them.
pub open spec fn dto_views(dtos: Seq<CommandInfoDTO>) -> Seq<CommandInfoDTOView> {
    Seq::new(dtos.len(), |i: int| dtos[i]@)
}

/// Copies a list of strings.
fn clone_strings(strings: &Vec<String>) -> (copy: Vec<String>)
    ensures
        copy@ == strings@,
{
    let mut copy: Vec<String> = Vec::new();
    let mut i: usize = 0;
    while i < strings.len()
        invariant
            i <= strings.len(),
            copy@ == strings@.take(i as int),
        decreases strings.len() - i,
    {
        copy.push(strings[i].clone());
        assert(copy@ =~= strings@.take(i + 1));
        i += 1;
    }
    assert(strings@.take(i as int) =~= strings@);
    copy
}

impl Clone for CommandInfoDTO {
    fn clone(&self) -> (copy: Self)
        ensures
            copy@ == self@,
    {
        CommandInfoDTO {
            id: self.id.clone(),
            description: self.description.clone(),
            command: self.command.clone(),
            args: clone_strings(&self.args),
        }
    }
}

impl CommandInfoDTO {
    /// Shows a command of the catalog as callers see it.
    pub fn from(command_info: &CommandInfo) -> (dto: Self)
        ensures
            dto@ == CommandInfoDTOView::of(command_info@),
    {
        CommandInfoDTO {
            id: command_info.id.clone(),
            description: command_info.description.clone(),
            command: command_info.command.clone(),
            args: clone_strings(&command_info.args),
        }
    }
}

impl Clone for CommandInfo {
    fn clone(&self) -> (copy: Self)
        ensures
            copy@ == self@,
    {
        CommandInfo {
            id: self.id.clone(),
            description: self.description.clone(),
            command: self.command.clone(),
            args: clone_strings(&self.args),
            internal_only: self.internal_only,
        }
    }
}

/// The commands that a caller is shown, in the order of the catalog: all of
/// them for an internal caller, those not marked internal-only for an
/// external one.
pub open spec fn visible_commands(
    commands: Seq<CommandInfoView>,
    external_request: bool,
) -> Seq<CommandInfoDTOView>
    decreases commands.len(),
{
    if commands.len() == 0 {
        Seq::empty()
    } else {
        let earlier = visible_commands(commands.drop_last(), external_request);
        if external_request && commands.last().internal_only {
            earlier
        } else {
            earlier.push(CommandInfoDTOView::of(commands.last()))
        }
    }
}

/// The place in the catalog of the command called `id`: that of the last
/// one, should several have the same identifier.
pub open spec fn find_command(commands: Seq<CommandInfoView>, id: Seq<char>) -> Option<int>
    decreases commands.len(),
{
    if commands.len() == 0 {
        None
    } else if commands.last().id == id {
        Some(commands.len() - 1)
    } else {
        find_command(commands.drop_last(), id)
    }
}

/// The place in the catalog of the command that a caller may run under the
/// name `id`. A command that is marked internal-only is not found by an
/// external caller.
pub open spec fn runnable_command(
    commands: Seq<CommandInfoView>,
    external_request: bool,
    id: Seq<char>,
) -> Result<int, RunCommandError> {
    match find_command(commands, id) {
        None => Err(RunCommandError::CommandNotFound),
        Some(place) => if commands[place].internal_only && external_request {
            Err(RunCommandError::CommandNotFound)
        } else {
            Ok(place)
        },
    }
}

/// Where [`find_command`] finds a command, it is one with the identifier
/// asked for, and no later command has that identifier; where it finds
/// none, no command has it.
pub proof fn lemma_find_command(commands: Seq<CommandInfoView>, id: Seq<char>)
    ensures
        match find_command(commands, id) {
            Some(place) => {
                &&& 0 <= place < commands.len()
                &&& commands[place].id == id
                &&& forall|later: int| place < later < commands.len() ==> commands[later].id != id
            },
            None => forall|place: int| 0 <= place < commands.len() ==> commands[place].id != id,
        },
    decreases commands.len(),
{
    if commands.len() > 0 {
        let earlier = commands.drop_last();
        assert(commands[commands.len() - 1] == commands.last());
        assert forall|place: int| 0 <= place < earlier.len() implies earlier[place]
            == commands[place] by {}
        if commands.last().id != id {
            lemma_find_command(earlier, id);
            match find_command(earlier, id) {
                Some(found) => {
                    assert forall|later: int| found < later < commands.len() implies commands[later].id
                        != id by {
                        if later < earlier.len() {
                            assert(earlier[later].id != id);
                        }
                    }
                },
                None => {
                    assert forall|place: int| 0 <= place < commands.len() implies commands[place].id
                        != id by {
                        if place < earlier.len() {
                            assert(earlier[place].id != id);
                        }
                    }
                },
            }
        }
    }
}

/// An external caller who asks for an internal-only command gets the answer
/// that a caller gets who asks for a command that does not exist.
pub proof fn lemma_internal_only_looks_missing(
    commands: Seq<CommandInfoView>,
    hidden: Seq<char>,
    missing: Seq<char>,
)
    requires
        find_command(commands, hidden) matches Some(place) && commands[place].internal_only,
        find_command(commands, missing) is None,
    ensures
        runnable_command(commands, true, hidden) == runnable_command(commands, true, missing),
        runnable_command(commands, true, hidden) == Err::<int, RunCommandError>(
            RunCommandError::CommandNotFound,
        ),
{
}

/// Whether `shown` is what a caller sees of a command of the catalog that
/// the caller may know of.
pub open spec fn shows_catalog_command(
    commands: Seq<CommandInfoView>,
    external_request: bool,
    shown: CommandInfoDTOView,
) -> bool {
    exists|place: int|
        0 <= place < commands.len() && !(external_request && (
        #[trigger] commands[place]).internal_only) && shown == CommandInfoDTOView::of(
            commands[place],
        )
}

/// Every command that a caller is shown is a command of the catalog, and an
/// external caller is shown none that is marked internal-only; an internal
/// caller is shown them all.
pub proof fn lemma_visible_commands(commands: Seq<CommandInfoView>, external_request: bool)
    ensures
        visible_commands(commands, external_request).len() <= commands.len(),
        forall|i: int|
            0 <= i < visible_commands(commands, external_request).len()
                ==> shows_catalog_command(
                commands,
                external_request,
                #[trigger] visible_commands(commands, external_request)[i],
            ),
        !external_request ==> visible_commands(commands, external_request).len()
            == commands.len(),
    decreases commands.len(),
{
    if commands.len() > 0 {
        let earlier = commands.drop_last();
        lemma_visible_commands(earlier, external_request);
        let shown = visible_commands(commands, external_request);
        let shown_earlier = visible_commands(earlier, external_request);
        assert forall|i: int| 0 <= i < shown.len() implies shows_catalog_command(
            commands,
            external_request,
            #[trigger] shown[i],
        ) by {
            if i < shown_earlier.len() {
                assert(shown[i] == shown_earlier[i]);
                assert(shows_catalog_command(earlier, external_request, shown_earlier[i]));
                let place = choose|place: int|
                    0 <= place < earlier.len() && !(external_request && (
                    #[trigger] earlier[place]).internal_only) && shown_earlier[i]
                        == CommandInfoDTOView::of(earlier[place]);
                assert(commands[place] == earlier[place]);
            } else {
                let place = commands.len() - 1;
                assert(commands[place] == commands.last());
            }
        }
    }
}

/// What the server asks of a command service.
pub trait CommandsService {
    /// The invariant of the service.
    spec fn wf(&self) -> bool;

    /// The commands of the catalog, in their order.
    spec fn catalog(&self) -> Seq<CommandInfoView>;

    /// Lists the commands that a caller may know of.
    fn all_commands(&self, external_request: bool) -> (commands: Vec<CommandInfoDTO>)
        requires
            self.wf(),
        ensures
            dto_views(commands@) == visible_commands(self.catalog(), external_request),
    ;

    /// Begins the run of the command called `command_id`: looks it up and
    /// checks that the caller may run it. The run then waits for a slot.
    fn run_command(&self, external_request: bool, command_id: CommandID) -> (pending: Result<
        PendingCommand,
        RunCommandError,
    >)
        requires
            self.wf(),
        ensures
            match runnable_command(self.catalog(), external_request, command_id.0@) {
                Ok(place) => pending matches Ok(run) && run.command_info()@
                    == self.catalog()[place],
                Err(error) => pending == Err::<PendingCommand, RunCommandError>(error),
            },
    ;
}

/// The views of a list with one more command are the views of the list with
/// one more view.
proof fn lemma_command_views_push(commands: Seq<CommandInfo>, command_info: CommandInfo)
    ensures
        command_views(commands.push(command_info)) == command_views(commands).push(command_info@),
{
    assert(command_views(commands.push(command_info)) =~= command_views(commands).push(
        command_info@,
    ));
}

/// The same for commands as callers see them.
proof fn lemma_dto_views_push(dtos: Seq<CommandInfoDTO>, dto: CommandInfoDTO)
    ensures
        dto_views(dtos.push(dto)) == dto_views(dtos).push(dto@),
{
    assert(dto_views(dtos.push(dto)) =~= dto_views(dtos).push(dto@));
}

/// The command service for the commands of `command_configuration`.
pub fn new_commands_service(command_configuration: &CommandConfiguration) -> (service:
    CommandsServiceImpl)
    ensures
        service.wf(),
        service.catalog() == command_views(command_configuration.commands@),
        service.spec_max_concurrent_commands() == command_configuration.max_concurrent_commands,
        service.spec_semaphore_acquire_timeout()
            == command_configuration.semaphore_acquire_timeout,
{
    CommandsServiceImpl::new(command_configuration)
}

/// The catalog of commands with the two lists that callers are shown, and
/// the limits under which commands run.
pub struct CommandsServiceImpl {
    all_command_info_dtos: Vec<CommandInfoDTO>,
    external_command_info_dtos: Vec<CommandInfoDTO>,
    commands: Vec<CommandInfo>,
    max_concurrent_commands: usize,
    semaphore_acquire_timeout: Duration,
}

/// Copies a list of commands as callers see them.
fn clone_dtos(dtos: &Vec<CommandInfoDTO>) -> (copy: Vec<CommandInfoDTO>)
    ensures
        dto_views(copy@) == dto_views(dtos@),
{
    let mut copy: Vec<CommandInfoDTO> = Vec::new();
    let mut i: usize = 0;
    while i < dtos.len()
        invariant
            i <= dtos.len(),
            copy.len() == i,
            forall|j: int| 0 <= j < i ==> copy[j]@ == dtos[j]@,
        decreases dtos.len() - i,
    {
        copy.push(dtos[i].clone());
        i += 1;
    }
    assert(dto_views(copy@) =~= dto_views(dtos@));
    copy
}

impl CommandsServiceImpl {
    /// The largest number of commands that may run at the same time.
    pub closed spec fn spec_max_concurrent_commands(&self) -> usize {
        self.max_concurrent_commands
    }

    /// How long a run waits for a slot.
    pub closed spec fn spec_semaphore_acquire_timeout(&self) -> Duration {
        self.semaphore_acquire_timeout
    }

    /// Builds the service from the configured commands: the catalog in the
    /// configured order, the list shown to internal callers and the list
    /// shown to external ones.
    pub fn new(command_configuration: &CommandConfiguration) -> (service: Self)
        ensures
            service.wf(),
            service.catalog() == command_views(command_configuration.commands@),
            service.spec_max_concurrent_commands()
                == command_configuration.max_concurrent_commands,
            service.spec_semaphore_acquire_timeout()
                == command_configuration.semaphore_acquire_timeout,
    {
        let configured = &command_configuration.commands;
        let mut all_command_info_dtos: Vec<CommandInfoDTO> = Vec::new();
        let mut external_command_info_dtos: Vec<CommandInfoDTO> = Vec::new();
        let mut commands: Vec<CommandInfo> = Vec::new();
        let mut i: usize = 0;
        while i < configured.len()
            invariant
                i <= configured.len(),
                command_views(commands@) == command_views(configured@.take(i as int)),
                dto_views(all_command_info_dtos@) == visible_commands(
                    command_views(configured@.take(i as int)),
                    false,
                ),
                dto_views(external_command_info_dtos@) == visible_commands(
                    command_views(configured@.take(i as int)),
                    true,
                ),
            decreases configured.len() - i,
        {
            let command_info = &configured[i];
            let ghost longer = command_views(configured@.take(i + 1));
            proof {
                assert(configured@.take(i + 1) =~= configured@.take(i as int).push(
                    *command_info,
                ));
                lemma_command_views_push(configured@.take(i as int), *command_info);
                assert(longer.drop_last() =~= command_views(configured@.take(i as int)));
                assert(longer.last() == command_info@);
            }
            let shown = CommandInfoDTO::from(command_info);
            proof {
                lemma_dto_views_push(all_command_info_dtos@, shown);
            }
            all_command_info_dtos.push(shown);
            if !command_info.internal_only {
                let shown_outside = CommandInfoDTO::from(command_info);
                proof {
                    lemma_dto_views_push(external_command_info_dtos@, shown_outside);
                }
                external_command_info_dtos.push(shown_outside);
            }
            let copied = command_info.clone();
            proof {
                lemma_command_views_push(commands@, copied);
            }
            commands.push(copied);
            i += 1;
        }
        assert(configured@.take(i as int) =~= configured@);
        CommandsServiceImpl {
            all_command_info_dtos,
            external_command_info_dtos,
            commands,
            max_concurrent_commands: command_configuration.max_concurrent_commands,
            semaphore_acquire_timeout: command_configuration.semaphore_acquire_timeout,
        }
    }

    /// The largest number of commands that may run at the same time: the
    /// number of slots to hand out.
    pub fn max_concurrent_commands(&self) -> (limit: usize)
        ensures
            limit == self.spec_max_concurrent_commands(),
    {
        self.max_concurrent_commands
    }

    /// How long a run waits for a slot before it is turned away.
    pub fn semaphore_acquire_timeout(&self) -> (timeout: Duration)
        ensures
            timeout == self.spec_semaphore_acquire_timeout(),
    {
        self.semaphore_acquire_timeout
    }

    /// Looks for the command called `id`, from the end of the catalog.
    fn find(&self, id: &String) -> (found: Option<usize>)
        ensures
            match find_command(self.catalog(), id@) {
                Some(place) => found == Some(place as usize) && 0 <= place
                    < self.commands.len(),
                None => found is None,
            },
    {
        let mut remaining: usize = self.commands.len();
        assert(self.catalog().take(remaining as int) =~= self.catalog());
        while remaining > 0
            invariant
                remaining <= self.commands.len(),
                find_command(self.catalog(), id@) == find_command(
                    self.catalog().take(remaining as int),
                    id@,
                ),
            decreases remaining,
        {
            remaining -= 1;
            proof {
                let considered = self.catalog().take(remaining + 1);
                assert(considered.drop_last() =~= self.catalog().take(remaining as int));
                assert(considered.last() == self.commands@[remaining as int]@);
            }
            if self.commands[remaining].id == *id {
                return Some(remaining);
            }
        }
        None
    }
}

impl CommandsService for CommandsServiceImpl {
    closed spec fn wf(&self) -> bool {
        &&& dto_views(self.all_command_info_dtos@) == visible_commands(self.catalog(), false)
        &&& dto_views(self.external_command_info_dtos@) == visible_commands(self.catalog(), true)
    }

    closed spec fn catalog(&self) -> Seq<CommandInfoView> {
        command_views(self.commands@)
    }

    fn all_commands(&self, external_request: bool) -> (commands: Vec<CommandInfoDTO>) {
        if external_request {
            clone_dtos(&self.external_command_info_dtos)
        } else {
            clone_dtos(&self.all_command_info_dtos)
        }
    }

    fn run_command(&self, external_request: bool, command_id: CommandID) -> (pending: Result<
        PendingCommand,
        RunCommandError,
    >) {
        match self.find(&command_id.0) {
            None => Err(RunCommandError::CommandNotFound),
            Some(place) => {
                let command_info = &self.commands[place];
                if command_info.internal_only && external_request {
                    Err(RunCommandError::CommandNotFound)
                } else {
                    Ok(PendingCommand::new(command_info.clone()))
                }
            },
        }
    }
}

/// How the wait for a slot ended. `P` is the permit that stands for the
/// slot: whoever holds it occupies the slot, and giving it up frees the
/// slot.
#[derive(Debug)]
pub enum PermitOutcome<P> {
    /// A slot was free, or became free in time.
    Acquired(P),
    /// No slot became free within the acquire timeout.
    TimedOut,
    /// Slots are no longer handed out.
    Closed,
}

/// A run that waits for a slot.
#[derive(Debug)]
pub struct PendingCommand {
    command_info: CommandInfo,
}

impl PendingCommand {
    /// The command to run.
    pub closed spec fn command_info(&self) -> CommandInfo {
        self.command_info
    }

    fn new(command_info: CommandInfo) -> (run: Self)
        ensures
            run.command_info() == command_info,
    {
        PendingCommand { command_info }
    }

    /// Decides on the outcome of the wait for a slot, which ended at the
    /// clock reading `now`: with a slot the command is to be started, the
    /// run holds the permit, and its time counts from `now`; without one the
    /// caller is turned away.
    pub fn proceed<P>(self, outcome: PermitOutcome<P>, now: u128) -> (admitted: Result<
        RunningCommand<P>,
        RunCommandError,
    >)
        ensures
            match outcome {
                PermitOutcome::Acquired(permit) => admitted matches Ok(running)
                    && running.command_info() == self.command_info() && running.started_at()
                    == now && running.permit() == permit,
                PermitOutcome::TimedOut | PermitOutcome::Closed => admitted == Err::<
                    RunningCommand<P>,
                    RunCommandError,
                >(RunCommandError::SemaphoreAcquireError),
            },
    {
        match outcome {
            PermitOutcome::Acquired(permit) => Ok(
                RunningCommand { command_info: self.command_info, started_at: now, permit },
            ),
            PermitOutcome::TimedOut => Err(RunCommandError::SemaphoreAcquireError),
            PermitOutcome::Closed => Err(RunCommandError::SemaphoreAcquireError),
        }
    }
}

/// How the subprocess of a command ended.
#[derive(Debug)]
pub enum CommandOutcome {
    /// The subprocess ran and left these bytes on its two output streams.
    Exited { stdout: Vec<u8>, stderr: Vec<u8> },
    /// The subprocess could not be started or awaited.
    Failed { error: String },
}

/// The text that `String::from_utf8_lossy` makes of `bytes`.
pub uninterp spec fn utf8_lossy_text(bytes: Seq<u8>) -> Seq<char>;

/// Calls `String::from_utf8_lossy`, which decodes UTF-8 and puts U+FFFD in
/// the place of what is not valid: the result is the text of
/// [`utf8_lossy_text`].
#[verifier::external_body]
fn string_from_utf8_lossy(bytes: &Vec<u8>) -> (text: String)
    ensures
        text@ == utf8_lossy_text(bytes@),
{
    String::from_utf8_lossy(bytes).into_owned()
}

/// Puts what a subprocess wrote to standard error in front of what it wrote
/// to standard output.
pub fn combine_output(stderr_text: String, stdout_text: String) -> (combined: String)
    ensures
        combined@ == stderr_text@ + stdout_text@,
{
    stderr_text.concat(stdout_text.as_str())
}

/// The text that reports a subprocess which could not be run.
pub fn failure_output(error: &String) -> (text: String)
    ensures
        text@ == "error running command: "@ + error@,
{
    String::from_str("error running command: ").concat(error.as_str())
}

/// The output that a run reports: the decoded standard error followed by the
/// decoded standard output, or the text of the failure.
pub open spec fn command_output_text(outcome: CommandOutcome) -> Seq<char> {
    match outcome {
        CommandOutcome::Exited { stdout, stderr } => utf8_lossy_text(stderr@) + utf8_lossy_text(
            stdout@,
        ),
        CommandOutcome::Failed { error } => "error running command: "@ + error@,
    }
}

/// Computes [`command_output_text`].
pub fn command_output(outcome: &CommandOutcome) -> (text: String)
    ensures
        text@ == command_output_text(*outcome),
{
    match outcome {
        CommandOutcome::Exited { stdout, stderr } => combine_output(
            string_from_utf8_lossy(stderr),
            string_from_utf8_lossy(stdout),
        ),
        CommandOutcome::Failed { error } => failure_output(error),
    }
}

/// What the caller gets back from a run.
#[derive(Debug)]
pub struct RunCommandDTO {
    /// The wall-clock time at which the run was reported.
    pub now: String,
    /// How long the subprocess took, in whole milliseconds.
    pub command_duration_ms: u128,
    pub command_info: CommandInfoDTO,
    pub command_output: String,
}

/// A run that holds a slot, by its permit, and whose subprocess is under
/// way.
#[derive(Debug)]
pub struct RunningCommand<P> {
    command_info: CommandInfo,
    started_at: u128,
    permit: P,
}

impl<P> RunningCommand<P> {
    /// The command that runs.
    pub closed spec fn command_info(&self) -> CommandInfo {
        self.command_info
    }

    /// The clock reading at which the run got its slot, in nanoseconds.
    pub closed spec fn started_at(&self) -> u128 {
        self.started_at
    }

    /// The permit of the slot that the run holds.
    pub closed spec fn permit(&self) -> P {
        self.permit
    }

    /// The program to start.
    pub fn command(&self) -> (command: &String)
        ensures
            command@ == self.command_info()@.command,
    {
        &self.command_info.command
    }

    /// The arguments to start the program with.
    pub fn args(&self) -> (args: &Vec<String>)
        ensures
            texts(args@) == self.command_info()@.args,
    {
        &self.command_info.args
    }

    /// Reports the run, whose subprocess returned at the clock reading
    /// `now`. The permit is given up first, whatever the outcome; then the
    /// report is made. The duration is the time since the run got its slot,
    /// whatever it waited before. A subprocess that failed is reported like
    /// one that ran, with the failure as its output.
    pub fn finish(self, outcome: CommandOutcome, now: u128, timestamp: String) -> (dto:
        RunCommandDTO)
        ensures
            dto.now == timestamp,
            dto.command_duration_ms == whole_milliseconds(
                elapsed_between(self.started_at(), now),
            ),
            dto.command_info@ == CommandInfoDTOView::of(self.command_info()@),
            dto.command_output@ == command_output_text(outcome),
    {
        let RunningCommand { command_info, started_at, permit } = self;
        give_up(permit);
        RunCommandDTO {
            now: timestamp,
            command_duration_ms: truncate_to_milliseconds(saturating_elapsed(started_at, now)),
            command_info: CommandInfoDTO::from(&command_info),
            command_output: command_output(&outcome),
        }
    }
}

/// Ends the life of a permit, which frees its slot.
fn give_up<P>(permit: P) {
}

} // verus!
