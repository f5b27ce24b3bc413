//! When a running pipeline is replaced, kept or ended.
use crate::cli::config::{validate_config, Config};
use crate::text::{join2, join3, nat_text, u64_text};
use vstd::prelude::*;

verus! {

broadcast use vstd::string::group_string_axioms;

/// What happens while a pipeline runs.
#[derive(Debug, PartialEq)]
pub enum ReloadEvent {
    /// The process is told to stop.
    Shutdown,
    /// The configuration has changed: the new one, or why it cannot be read.
    Changed(Result<Config, String>),
    /// The pipeline has ended by itself.
    Exited,
}

/// What to do then.
#[derive(Debug, Clone, Copy, PartialEq, Eq, Structural)]
pub enum ReloadAction {
    /// Stop the pipeline and leave.
    Stop,
    /// Leave.
    Leave,
    /// Stop the pipeline, count a successful reload, and start the pipeline of the
    /// new configuration.
    Restart,
    /// Count a failed reload, and let the pipeline run on.
    Keep,
}

/// The configuration that runs, and whether it came by a reload that the
/// pipeline's own counters do not show yet.
#[derive(Debug, PartialEq)]
pub struct ReloadState {
    pub config: Config,
    pub is_reload: bool,
}

/// Whether a configuration can run.
pub open spec fn can_run(config: Config) -> bool {
    config.inputs@.len() > 0
}

/// Whether an event brings a configuration that can run.
pub open spec fn brings_config(event: ReloadEvent) -> bool {
    event matches ReloadEvent::Changed(Ok(c)) && can_run(c)
}

/// What an event asks for.
pub open spec fn action_for(event: ReloadEvent) -> ReloadAction {
    match event {
        ReloadEvent::Shutdown => ReloadAction::Stop,
        ReloadEvent::Exited => ReloadAction::Leave,
        ReloadEvent::Changed(_) => if brings_config(event) {
            ReloadAction::Restart
        } else {
            ReloadAction::Keep
        },
    }
}

/// The state after an event.
pub open spec fn state_after(s: ReloadState, event: ReloadEvent) -> ReloadState {
    if brings_config(event) {
        ReloadState { config: event->Changed_0->Ok_0, is_reload: true }
    } else {
        s
    }
}

impl ReloadState {
    /// The state in which a configuration is run first.
    pub fn new(config: Config) -> (r: ReloadState)
        ensures
            r.config == config,
            !r.is_reload,
    {
        ReloadState { config, is_reload: false }
    }

    /// Whether the pipeline that is started now follows a reload, which its
    /// counters are to show; asked once for each start.
    pub fn started(&mut self) -> (r: bool)
        ensures
            r == old(self).is_reload,
            *final(self) == (ReloadState { is_reload: false, ..*old(self) }),
    {
        let r = self.is_reload;
        self.is_reload = false;
        r
    }

    /// Takes an event in.
    pub fn step(&mut self, event: ReloadEvent) -> (r: ReloadAction)
        ensures
            r == action_for(event),
            *final(self) == state_after(*old(self), event),
    {
        match event {
            ReloadEvent::Shutdown => ReloadAction::Stop,
            ReloadEvent::Exited => ReloadAction::Leave,
            ReloadEvent::Changed(Ok(c)) => match validate_config(&c) {
                Ok(_) => {
                    self.config = c;
                    self.is_reload = true;
                    ReloadAction::Restart
                },
                Err(_) => ReloadAction::Keep,
            },
            ReloadEvent::Changed(Err(_)) => ReloadAction::Keep,
        }
    }
}

/// The state after the events from `i` on.
pub open spec fn state_after_all(s: ReloadState, events: Seq<ReloadEvent>, i: int) -> ReloadState
    decreases events.len() - i,
{
    if i < 0 || i >= events.len() {
        s
    } else {
        state_after_all(state_after(s, events[i]), events, i + 1)
    }
}

/// Whatever happens, a configuration that can run stays one: a bad one never
/// replaces it.
pub proof fn running_config_stays_valid(s: ReloadState, events: Seq<ReloadEvent>, i: int)
    requires
        can_run(s.config),
        0 <= i <= events.len(),
    ensures
        can_run(state_after_all(s, events, i).config),
    decreases events.len() - i,
{
    if i < events.len() {
        running_config_stays_valid(state_after(s, events[i]), events, i + 1);
    }
}

/// Events that bring no configuration that can run change nothing.
pub proof fn bad_configs_change_nothing(s: ReloadState, events: Seq<ReloadEvent>, i: int)
    requires
        0 <= i <= events.len(),
        forall|k: int| i <= k < events.len() ==> !brings_config(#[trigger] events[k]),
    ensures
        state_after_all(s, events, i) == s,
    decreases events.len() - i,
{
    if i < events.len() {
        bad_configs_change_nothing(state_after(s, events[i]), events, i + 1);
    }
}

/// When a file was changed last, in nanoseconds since 1970, and its length; none
/// where it cannot be read.
pub type FileState = Option<(i128, u64)>;

/// Whether watched files differ from when they were last looked at.
pub fn files_changed(last: &Vec<FileState>, current: &Vec<FileState>) -> (r: bool)
    ensures
        r == (last@ != current@),
{
    if last.len() != current.len() {
        return true;
    }
    let mut i: usize = 0;
    while i < last.len()
        invariant
            i <= last@.len(),
            last@.len() == current@.len(),
            forall|k: int| 0 <= k < i ==> last@[k] == #[trigger] current@[k],
        decreases last@.len() - i,
    {
        let equal = match (last[i], current[i]) {
            (Some((a, b)), Some((c, d))) => a == c && b == d,
            (None, None) => true,
            _ => false,
        };
        if !equal {
            assert(last@[i as int] != current@[i as int]);
            return true;
        }
        i += 1;
    }
    assert(last@ =~= current@);
    false
}

/// What failed while the monitoring API tried a port.
#[derive(Debug, Clone, Copy, PartialEq, Eq, Structural)]
pub enum BindFailure {
    Socket,
    Bind,
    Listen,
}

/// What to do after a port failed.
#[derive(Debug, PartialEq, Eq)]
pub enum BindStep {
    /// Try this port.
    Try(u16),
    /// Give up, and why.
    GiveUp(String),
}

/// Why no port could be had.
pub open spec fn bind_error(base_port: int, tries: int, failure: BindFailure, error: Seq<char>) -> Seq<
    char,
> {
    match failure {
        BindFailure::Socket => "socket creation failed: "@ + error,
        BindFailure::Bind => "failed to bind monitoring API after "@ + nat_text(tries as nat)
            + " attempts (ports "@ + nat_text(base_port as nat) + "-"@ + nat_text(
            (base_port + tries - 1) as nat,
        ) + "): "@ + error,
        BindFailure::Listen => "listen failed: "@ + error,
    }
}

/// What follows a failure on the port `base_port + offset`: the next port, as
/// long as there are tries.
pub fn bind_step(
    base_port: u16,
    offset: u16,
    max_tries: u16,
    failure: BindFailure,
    error: &str,
) -> (r: BindStep)
    requires
        offset < max_tries,
        offset + 1 < max_tries ==> base_port + offset + 1 <= u16::MAX,
    ensures
        match r {
            BindStep::Try(port) => offset + 1 < max_tries && port == base_port + offset + 1,
            BindStep::GiveUp(m) => offset + 1 == max_tries && m@ == bind_error(
                base_port as int,
                max_tries as int,
                failure,
                error@,
            ),
        },
{
    if offset < max_tries - 1 {
        return BindStep::Try(base_port + (offset + 1));
    }
    match failure {
        BindFailure::Socket => BindStep::GiveUp(join2("socket creation failed: ", error)),
        BindFailure::Listen => BindStep::GiveUp(join2("listen failed: ", error)),
        BindFailure::Bind => {
            let mut m = join3(
                "failed to bind monitoring API after ",
                &u64_text(max_tries as u64),
                " attempts (ports ",
            );
            m.append(&u64_text(base_port as u64));
            m.append("-");
            m.append(&u64_text(base_port as u64 + (max_tries as u64 - 1)));
            m.append("): ");
            m.append(error);
            BindStep::GiveUp(m)
        },
    }
}

} // verus!
