//! The decisions of the worker's supervisor: how the backend is started,
//! and what is done when the gateway is interrupted.

use crate::config::FpmConfig;
use crate::error::GatewayError;
use vstd::prelude::*;

verus! {

/// The code with which the gateway exits after an interrupt.
pub const EXIT_CODE: i32 = 0;

/// How the backend is started.
pub struct WorkerCommand {
    /// The program to run.
    pub program: String,
    /// Its arguments.
    pub args: Vec<String>,
    /// Whether it is to lead a process group of its own, so that one signal
    /// reaches it and all that it starts.
    pub leads_group: bool,
}

/// The backend's process, as the supervisor owns it from the launch until
/// the gateway is shut down.
pub struct WorkerProcess {
    pid: u32,
}

impl View for WorkerProcess {
    type V = u32;

    /// The id of the process.
    closed spec fn view(&self) -> u32 {
        self.pid
    }
}

/// What is done on an interrupt: the backend's process group is signalled
/// to terminate, then the gateway exits, whether or not the signal went out.
pub struct ShutdownPlan {
    /// What to hand to `kill`, with the signal that asks to terminate, to
    /// reach the whole group; `None` where the worker's process id can name
    /// no group.
    pub terminate_group: Option<i32>,
    /// The gateway's exit code.
    pub exit_code: i32,
}

/// What `kill` takes to reach the process group that the process `pid`
/// leads: the negated id. The id 0 names no process, and one above the
/// largest `i32` none that `kill` can be handed.
pub open spec fn group_target(pid: u32) -> Option<i32> {
    if 0 < pid <= i32::MAX {
        Some((-(pid as int)) as i32)
    } else {
        None
    }
}

/// The command that starts the backend: it is told to look for no
/// configuration of its own, and to read the configured file, and it leads
/// a new process group.
pub fn worker_command(config: &FpmConfig) -> (command: WorkerCommand)
    ensures
        command.leads_group,
        command.program@ == "php-fpm"@,
        command.args@.len() == 3,
        command.args@[0]@ == "-n"@,
        command.args@[1]@ == "-y"@,
        command.args@[2]@ == config@.config_path,
{
    let mut args: Vec<String> = Vec::new();
    args.push("-n".to_owned());
    args.push("-y".to_owned());
    args.push(config.config_path().to_owned());
    WorkerCommand { program: "php-fpm".to_owned(), args, leads_group: true }
}

/// What `kill` takes to reach the process group that the process `pid`
/// leads.
pub fn process_group_target(pid: u32) -> (target: Option<i32>)
    ensures
        target == group_target(pid),
{
    if 0 < pid && pid <= i32::MAX as u32 {
        Some(-(pid as i32))
    } else {
        None
    }
}

/// What the launch of the backend gave: the worker, where a process was
/// started, and else the error that keeps the gateway from serving.
pub fn worker_started(launched: Option<u32>) -> (started: Result<WorkerProcess, GatewayError>)
    ensures
        match launched {
            Some(pid) => started matches Ok(worker) && worker@ == pid,
            None => started matches Err(e) && e == GatewayError::SpawnError,
        },
{
    match launched {
        Some(pid) => Ok(WorkerProcess::new(pid)),
        None => Err(GatewayError::SpawnError),
    }
}

impl WorkerProcess {
    /// The process with the id `pid`, just launched.
    pub fn new(pid: u32) -> (worker: WorkerProcess)
        ensures
            worker@ == pid,
    {
        WorkerProcess { pid }
    }

    /// The id of the process.
    pub fn pid(&self) -> (pid: u32)
        ensures
            pid == self@,
    {
        self.pid
    }

    /// What the gateway does when it is interrupted. The worker is given up
    /// with this call, so that it is shut down once.
    pub fn shutdown(self) -> (plan: ShutdownPlan)
        ensures
            plan.terminate_group == group_target(self@),
            plan.exit_code == EXIT_CODE,
    {
        ShutdownPlan { terminate_group: process_group_target(self.pid), exit_code: EXIT_CODE }
    }
}

} // verus!
