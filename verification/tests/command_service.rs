use ops_service::config::CommandConfiguration;
use ops_service::config::CommandInfo;
use ops_service::service::command_service::combine_output;
use ops_service::service::command_service::command_output;
use ops_service::service::command_service::failure_output;
use ops_service::service::command_service::new_commands_service;
use ops_service::service::command_service::CommandID;
use ops_service::service::command_service::CommandInfoDTO;
use ops_service::service::command_service::CommandOutcome;
use ops_service::service::command_service::CommandsService;
use ops_service::service::command_service::CommandsServiceImpl;
use ops_service::service::command_service::PermitOutcome;
use ops_service::service::command_service::RunCommandDTO;
use ops_service::service::command_service::RunCommandError;
use ops_service::service::command_service::RunningCommand;
use std::time::Duration;

fn command(id: &str, program: &str, args: &[&str], internal_only: bool) -> CommandInfo {
    CommandInfo {
        id: id.to_string(),
        description: format!("runs {}", program),
        command: program.to_string(),
        args: args.iter().map(|a| a.to_string()).collect(),
        internal_only,
    }
}

fn configuration(commands: Vec<CommandInfo>) -> CommandConfiguration {
    CommandConfiguration {
        max_concurrent_commands: 2,
        semaphore_acquire_timeout: Duration::from_millis(0),
        commands,
    }
}

fn service() -> CommandsServiceImpl {
    new_commands_service(&configuration(vec![
        command("uptime", "/usr/bin/uptime", &[], false),
        command("secrets", "/bin/cat", &["/etc/shadow"], true),
        command("disk", "/bin/df", &["-h", "/"], false),
    ]))
}

fn ids(commands: &[CommandInfoDTO]) -> Vec<String> {
    commands.iter().map(|c| c.id.clone()).collect()
}

fn running(service: &CommandsServiceImpl, id: &str, started_at: u128) -> RunningCommand<()> {
    service
        .run_command(false, CommandID(id.to_string()))
        .unwrap()
        .proceed(PermitOutcome::Acquired(()), started_at)
        .unwrap()
}

fn error_of<T>(result: Result<T, RunCommandError>) -> RunCommandError {
    match result {
        Ok(_) => panic!("the run was not refused"),
        Err(error) => error,
    }
}

#[test]
fn internal_callers_see_the_whole_catalog() {
    let commands = service().all_commands(false);
    assert_eq!(ids(&commands), vec!["uptime", "secrets", "disk"]);
    assert_eq!(commands[2].description, "runs /bin/df");
    assert_eq!(commands[2].command, "/bin/df");
    assert_eq!(commands[2].args, vec!["-h", "/"]);
    assert_eq!(commands[0].args.len(), 0);
}

#[test]
fn external_callers_see_no_internal_only_command() {
    let commands = service().all_commands(true);
    assert_eq!(ids(&commands), vec!["uptime", "disk"]);
    assert_eq!(commands[1].args, vec!["-h", "/"]);
}

#[test]
fn an_empty_catalog_lists_and_runs_nothing() {
    let service = new_commands_service(&configuration(Vec::new()));
    assert!(service.all_commands(false).is_empty());
    assert!(service.all_commands(true).is_empty());
    assert_eq!(
        error_of(service.run_command(false, CommandID("uptime".to_string()))),
        RunCommandError::CommandNotFound
    );
}

#[test]
fn a_command_that_does_not_exist_is_not_found() {
    let service = service();
    for external in [true, false] {
        assert_eq!(
            error_of(service.run_command(external, CommandID("reboot".to_string()))),
            RunCommandError::CommandNotFound
        );
        assert_eq!(
            error_of(service.run_command(external, CommandID(String::new()))),
            RunCommandError::CommandNotFound
        );
    }
}

#[test]
fn an_internal_only_command_looks_missing_to_external_callers() {
    let service = service();
    let hidden = error_of(service.run_command(true, CommandID("secrets".to_string())));
    let missing = error_of(service.run_command(true, CommandID("no-such".to_string())));
    assert_eq!(hidden, missing);
    assert_eq!(hidden, RunCommandError::CommandNotFound);
    assert_eq!(hidden.status_code(), 404);
    assert_eq!(hidden.status_code(), missing.status_code());
}

#[test]
fn an_internal_only_command_runs_for_internal_callers() {
    let service = service();
    let run = running(&service, "secrets", 0);
    assert_eq!(run.command(), "/bin/cat");
    assert_eq!(run.args(), &vec!["/etc/shadow".to_string()]);
}

#[test]
fn a_visible_command_runs_for_external_callers() {
    let service = service();
    let pending = service.run_command(true, CommandID("disk".to_string()));
    let run = pending
        .unwrap()
        .proceed(PermitOutcome::Acquired(()), 7)
        .unwrap();
    assert_eq!(run.command(), "/bin/df");
    assert_eq!(run.args(), &vec!["-h".to_string(), "/".to_string()]);
}

#[test]
fn the_last_of_two_commands_with_one_identifier_is_run() {
    let service = new_commands_service(&configuration(vec![
        command("show", "/bin/first", &[], true),
        command("other", "/bin/other", &[], false),
        command("show", "/bin/second", &["x"], false),
    ]));
    let run = service
        .run_command(true, CommandID("show".to_string()))
        .unwrap()
        .proceed(PermitOutcome::Acquired(()), 0)
        .unwrap();
    assert_eq!(run.command(), "/bin/second");
    assert_eq!(ids(&service.all_commands(false)), vec!["show", "other", "show"]);
    assert_eq!(ids(&service.all_commands(true)), vec!["other", "show"]);

    let service = new_commands_service(&configuration(vec![
        command("show", "/bin/first", &[], false),
        command("show", "/bin/second", &[], true),
    ]));
    assert_eq!(
        error_of(service.run_command(true, CommandID("show".to_string()))),
        RunCommandError::CommandNotFound
    );
}

#[test]
fn a_run_without_a_slot_is_turned_away() {
    let service = service();
    for outcome in [PermitOutcome::<()>::TimedOut, PermitOutcome::<()>::Closed] {
        let pending = service
            .run_command(false, CommandID("uptime".to_string()))
            .unwrap();
        let refused = error_of(pending.proceed(outcome, 5));
        assert_eq!(refused, RunCommandError::SemaphoreAcquireError);
        assert_eq!(refused.status_code(), 429);
    }
}

#[test]
fn the_service_hands_out_its_limits() {
    let service = new_commands_service(&CommandConfiguration {
        max_concurrent_commands: 7,
        semaphore_acquire_timeout: Duration::from_millis(250),
        commands: Vec::new(),
    });
    assert_eq!(service.max_concurrent_commands(), 7);
    assert_eq!(service.semaphore_acquire_timeout(), Duration::from_millis(250));
    let service = CommandsServiceImpl::new(&configuration(Vec::new()));
    assert_eq!(service.max_concurrent_commands(), 2);
    assert_eq!(service.semaphore_acquire_timeout(), Duration::ZERO);
}

#[test]
fn two_of_three_simultaneous_runs_get_a_slot() {
    let service = service();
    let runtime = tokio::runtime::Builder::new_current_thread()
        .enable_time()
        .build()
        .unwrap();
    let semaphore = tokio::sync::Semaphore::new(service.max_concurrent_commands());
    let wait_for_slot = || {
        let acquired = runtime.block_on(async {
            tokio::time::timeout(service.semaphore_acquire_timeout(), semaphore.acquire()).await
        });
        match acquired {
            Ok(Ok(permit)) => PermitOutcome::Acquired(permit),
            Ok(Err(_)) => PermitOutcome::Closed,
            Err(_) => PermitOutcome::TimedOut,
        }
    };
    let mut started = Vec::new();
    let mut refused = Vec::new();
    for _ in 0..3 {
        let pending = service
            .run_command(false, CommandID("uptime".to_string()))
            .unwrap();
        match pending.proceed(wait_for_slot(), 0) {
            Ok(run) => started.push(run),
            Err(error) => refused.push(error),
        }
    }
    assert_eq!(started.len(), 2);
    assert_eq!(refused, vec![RunCommandError::SemaphoreAcquireError]);
    assert_eq!(refused[0].status_code(), 429);
    assert_eq!(semaphore.available_permits(), 0);

    // both running commands return, one of them in failure
    let mut reports: Vec<RunCommandDTO> = Vec::new();
    reports.push(started.pop().unwrap().finish(
        CommandOutcome::Exited {
            stdout: b"up".to_vec(),
            stderr: Vec::new(),
        },
        1,
        String::new(),
    ));
    assert_eq!(semaphore.available_permits(), 1);
    reports.push(started.pop().unwrap().finish(
        CommandOutcome::Failed {
            error: "gone".to_string(),
        },
        1,
        String::new(),
    ));
    assert_eq!(semaphore.available_permits(), 2);
    assert_eq!(reports[0].command_output, "up");
    assert_eq!(reports[1].command_output, "error running command: gone");

    let pending = service
        .run_command(false, CommandID("uptime".to_string()))
        .unwrap();
    assert!(pending.proceed(wait_for_slot(), 2).is_ok());
}

#[test]
fn a_run_that_is_turned_away_holds_no_slot() {
    let service = service();
    let semaphore = tokio::sync::Semaphore::new(1);
    let holder = semaphore.try_acquire().unwrap();
    let outcome = match semaphore.try_acquire() {
        Ok(permit) => PermitOutcome::Acquired(permit),
        Err(tokio::sync::TryAcquireError::NoPermits) => PermitOutcome::TimedOut,
        Err(tokio::sync::TryAcquireError::Closed) => PermitOutcome::Closed,
    };
    let pending = service
        .run_command(false, CommandID("uptime".to_string()))
        .unwrap();
    assert_eq!(
        error_of(pending.proceed(outcome, 0)),
        RunCommandError::SemaphoreAcquireError
    );
    drop(holder);
    assert_eq!(semaphore.available_permits(), 1);
}

#[test]
fn output_is_standard_error_followed_by_standard_output() {
    let service = service();
    let dto = running(&service, "disk", 1_000).finish(
        CommandOutcome::Exited {
            stdout: b"Filesystem Size\n/dev/sda1 10G\n".to_vec(),
            stderr: b"df: warning\n".to_vec(),
        },
        2_000,
        "2024-01-02T03:04:05+00:00[UTC]".to_string(),
    );
    assert_eq!(
        dto.command_output,
        "df: warning\nFilesystem Size\n/dev/sda1 10G\n"
    );
    assert_eq!(dto.now, "2024-01-02T03:04:05+00:00[UTC]");
    assert_eq!(dto.command_info.id, "disk");
    assert_eq!(dto.command_info.description, "runs /bin/df");
    assert_eq!(dto.command_info.command, "/bin/df");
    assert_eq!(dto.command_info.args, vec!["-h", "/"]);
}

#[test]
fn duration_is_the_time_since_the_slot_was_taken_in_whole_milliseconds() {
    let service = service();
    let exited = || CommandOutcome::Exited {
        stdout: Vec::new(),
        stderr: Vec::new(),
    };
    let dto = running(&service, "uptime", 5_000_000_000).finish(
        exited(),
        5_012_999_999,
        String::new(),
    );
    assert_eq!(dto.command_duration_ms, 12);
    assert_eq!(dto.command_output, "");
    let dto = running(&service, "uptime", 5_000_000_000).finish(
        exited(),
        8_250_000_000,
        String::new(),
    );
    assert_eq!(dto.command_duration_ms, 3250);
    let dto =
        running(&service, "uptime", 5_000_000_000).finish(exited(), 5_000_999_999, String::new());
    assert_eq!(dto.command_duration_ms, 0);
    let dto = running(&service, "uptime", 5_000_000_000).finish(exited(), 4_000, String::new());
    assert_eq!(dto.command_duration_ms, 0);
}

#[test]
fn a_subprocess_that_fails_is_reported_in_the_output() {
    let service = service();
    let dto = running(&service, "uptime", 0).finish(
        CommandOutcome::Failed {
            error: "No such file or directory (os error 2)".to_string(),
        },
        3_000_000,
        "now".to_string(),
    );
    assert_eq!(
        dto.command_output,
        "error running command: No such file or directory (os error 2)"
    );
    assert_eq!(dto.command_duration_ms, 3);
    assert_eq!(dto.command_info.id, "uptime");
    assert_eq!(
        failure_output(&"boom".to_string()),
        "error running command: boom"
    );
    assert_eq!(failure_output(&String::new()), "error running command: ");
}

#[test]
fn bytes_that_are_not_text_are_replaced() {
    let text = command_output(&CommandOutcome::Exited {
        stdout: vec![b'o', b'k', 0xff, b'!'],
        stderr: vec![0xc3, 0xa9, 0x80, b'\n'],
    });
    assert_eq!(text, "\u{e9}\u{fffd}\nok\u{fffd}!");
    let text = command_output(&CommandOutcome::Exited {
        stdout: "gr\u{fc}\u{df}e".as_bytes().to_vec(),
        stderr: Vec::new(),
    });
    assert_eq!(text, "gr\u{fc}\u{df}e");
}

#[test]
fn combining_puts_the_first_text_in_front() {
    assert_eq!(combine_output("err".to_string(), "out".to_string()), "errout");
    assert_eq!(combine_output(String::new(), "out".to_string()), "out");
    assert_eq!(combine_output("err".to_string(), String::new()), "err");
}

#[test]
fn refusals_map_to_their_status() {
    assert_eq!(RunCommandError::CommandNotFound.status_code(), 404);
    assert_eq!(RunCommandError::SemaphoreAcquireError.status_code(), 429);
}

#[test]
fn commands_copy_faithfully() {
    let original = command("disk", "/bin/df", &["-h", "/"], true);
    let copy = original.clone();
    assert_eq!(copy.id, "disk");
    assert_eq!(copy.description, "runs /bin/df");
    assert_eq!(copy.command, "/bin/df");
    assert_eq!(copy.args, vec!["-h", "/"]);
    assert!(copy.internal_only);
    let dto = CommandInfoDTO::from(&original);
    let dto_copy = dto.clone();
    assert_eq!(dto_copy.id, "disk");
    assert_eq!(dto_copy.args, dto.args);
    let id = CommandID("disk".to_string());
    assert_eq!(id.clone(), id);
}
