//! The interface's per-tab state and its polling of background jobs: each
//! tab drains its job's progress channel into the global log and notices when
//! the job reports completion.

use vstd::prelude::*;
use std::sync::mpsc::Receiver;
use vstd::string::StringExecFns;
use crate::channel::try_recv_opt;
use crate::github::GitHubRelease;
use crate::jobs::JobProgress;
use crate::text::{from_chars, push_char, str_eq, sub_chars, to_chars};

verus! {

/// The navigation tabs of the interface.
#[derive(Debug, Clone, Copy, PartialEq, Eq, Structural)]
pub enum Tab {
    Install,
    Mount,
    Repositories,
    Settings,
    About,
    Logs,
}

/// How many pending messages one poll drains at most, so that a single frame
/// never loops without bound on a channel that keeps filling.
pub(crate) const POLL_BUDGET: usize = 65536;

/// Append a line to the global log, separating it from earlier content.
fn append_global_line(log: &mut String, msg: &str)
    ensures
        final(log)@ == if old(log)@.len() == 0 {
            msg@
        } else {
            old(log)@ + "\n"@ + msg@
        },
{
    let was_empty = log.as_str().is_empty();
    if !was_empty {
        push_char(log, '\n');
    }
    log.append(msg);
    proof {
        reveal_strlit("\n");
        assert("\n"@ =~= seq!['\n']);
        if old(log)@.len() == 0 {
            assert(log@ =~= msg@);
        } else {
            assert(log@ =~= old(log)@ + "\n"@ + msg@);
        }
    }
}

/// The start of the last line: the index just past the last newline.
pub open spec fn line_start(s: Seq<char>, j: int) -> int
    decreases j,
    when j <= s.len()
{
    if j > 0 && s[j - 1] != '\n' {
        line_start(s, j - 1)
    } else {
        j
    }
}

pub open spec fn last_line(s: Seq<char>) -> Seq<char> {
    s.skip(line_start(s, s.len() as int))
}

/// Append a line to the global log unless it repeats the log's last line.
pub fn append_line_dedup(log: &mut String, msg: &str)
    ensures
        final(log)@ == if last_line(old(log)@) == msg@ {
            old(log)@
        } else if old(log)@.len() == 0 {
            msg@
        } else {
            old(log)@ + "\n"@ + msg@
        },
{
    let lv = to_chars(log.as_str());
    let mut j: usize = lv.len();
    while j > 0 && lv[j - 1] != '\n'
        invariant
            j <= lv.len(),
            lv@ == log@,
            line_start(lv@, lv@.len() as int) == line_start(lv@, j as int),
        decreases j,
    {
        j = j - 1;
    }
    let tail = sub_chars(&lv, j, lv.len());
    let tail_s = from_chars(&tail);
    proof {
        assert(tail@ =~= last_line(log@));
    }
    if str_eq(tail_s.as_str(), msg) {
        return ;
    }
    append_global_line(log, msg);
}

/// Everything the install tab keeps between frames.
pub struct InstallState {
    pub is_running: bool,
    pub current_job: Option<Receiver<JobProgress>>,
    pub progress: u8,
    pub remix_source_idx: usize,
    pub remix_releases: Vec<GitHubRelease>,
    pub remix_release_idx: usize,
    pub remix_rx: Option<Receiver<Vec<GitHubRelease>>>,
    pub remix_loading: bool,
    pub fixes_source_idx: usize,
    pub fixes_releases: Vec<GitHubRelease>,
    pub fixes_release_idx: usize,
    pub fixes_rx: Option<Receiver<Vec<GitHubRelease>>>,
    pub fixes_loading: bool,
    pub patch_source_idx: usize,
}

impl Default for InstallState {
    fn default() -> (s: Self)
        ensures
            !s.is_running,
            s.current_job is None,
            s.progress == 0,
            s.remix_source_idx == 0,
            s.remix_releases@.len() == 0,
            s.remix_release_idx == 0,
            s.remix_rx is None,
            !s.remix_loading,
            s.fixes_source_idx == 0,
            s.fixes_releases@.len() == 0,
            s.fixes_release_idx == 0,
            s.fixes_rx is None,
            !s.fixes_loading,
            s.patch_source_idx == 0,
    {
        InstallState {
            is_running: false,
            current_job: None,
            progress: 0,
            remix_source_idx: 0,
            remix_releases: Vec::new(),
            remix_release_idx: 0,
            remix_rx: None,
            remix_loading: false,
            fixes_source_idx: 0,
            fixes_releases: Vec::new(),
            fixes_release_idx: 0,
            fixes_rx: None,
            fixes_loading: false,
            patch_source_idx: 0,
        }
    }
}

impl InstallState {
    /// Drain pending progress of the running job into the global log; yields
    /// true exactly when the job reported completion this frame, and then
    /// stops running and drops the channel.
    pub fn poll_job(&mut self, global_log: &mut String) -> (finished: bool)
        ensures
            old(self).current_job is None ==> !finished && *final(self) == *old(self) && *final(global_log) == *old(global_log),
            finished ==> !final(self).is_running && final(self).current_job is None,
            old(global_log)@.is_prefix_of(final(global_log)@),
    {
        if self.current_job.is_none() {
            return false;
        }
        let mut finished = false;
        let taken = self.current_job.take();
        match taken {
            Some(rx) => {
                let mut fuel: usize = POLL_BUDGET;
                let mut done = false;
                while !done && fuel > 0
                    invariant
                        finished ==> !self.is_running,
                        self.current_job is None,
                        old(global_log)@.is_prefix_of(global_log@),
                    decreases fuel,
                {
                    let ghost mid = global_log@;
                    match try_recv_opt(&rx) {
                        Some(p) => {
                            self.progress = p.percent;
                            append_global_line(global_log, p.message.as_str());
                            proof {
                                assert(mid.is_prefix_of(global_log@));
                                assert(old(global_log)@.is_prefix_of(global_log@));
                            }
                            if p.percent >= 100 {
                                self.is_running = false;
                                finished = true;
                            }
                        },
                        None => {
                            done = true;
                        },
                    }
                    fuel = fuel - 1;
                }
                if !finished {
                    self.current_job = Some(rx);
                }
            },
            None => {},
        }
        finished
    }
}

/// Everything the mount tab keeps between frames.
pub struct MountState {
    pub mount_game_folder: String,
    pub mount_remix_mod: String,
    pub is_running: bool,
    pub current_job: Option<Receiver<JobProgress>>,
}

impl Default for MountState {
    fn default() -> (s: Self)
        ensures
            s.mount_game_folder@ == "hl2rtx"@,
            s.mount_remix_mod@ == "hl2rtx"@,
            !s.is_running,
            s.current_job is None,
    {
        let mut g = String::new();
        g.append("hl2rtx");
        let mut m = String::new();
        m.append("hl2rtx");
        MountState { mount_game_folder: g, mount_remix_mod: m, is_running: false, current_job: None }
    }
}

impl MountState {
    /// Drain pending progress into the global log; once the job reports
    /// completion the tab stops running and drops the channel.
    pub fn poll_job(&mut self, global_log: &mut String)
        ensures
            old(self).current_job is None ==> *final(self) == *old(self) && *final(global_log)
                == *old(global_log),
            old(global_log)@.is_prefix_of(final(global_log)@),
    {
        let taken = self.current_job.take();
        match taken {
            Some(rx) => {
                let mut fuel: usize = POLL_BUDGET;
                let mut done = false;
                while !done && fuel > 0
                    invariant
                        old(global_log)@.is_prefix_of(global_log@),
                    decreases fuel,
                {
                    let ghost mid = global_log@;
                    match try_recv_opt(&rx) {
                        Some(p) => {
                            append_global_line(global_log, p.message.as_str());
                            proof {
                                assert(mid.is_prefix_of(global_log@));
                                assert(old(global_log)@.is_prefix_of(global_log@));
                            }
                            if p.percent >= 100 {
                                self.is_running = false;
                            }
                        },
                        None => {
                            done = true;
                        },
                    }
                    fuel = fuel - 1;
                }
                if self.is_running {
                    self.current_job = Some(rx);
                }
            },
            None => {},
        }
    }
}

/// Everything the repositories tab keeps between frames.
pub struct RepositoriesState {
    pub is_running: bool,
    pub current_job: Option<Receiver<JobProgress>>,
    pub progress: u8,
    pub remix_source_idx: usize,
    pub remix_releases: Vec<GitHubRelease>,
    pub remix_release_idx: usize,
    pub remix_rx: Option<Receiver<Vec<GitHubRelease>>>,
    pub remix_loading: bool,
    pub fixes_source_idx: usize,
    pub fixes_releases: Vec<GitHubRelease>,
    pub fixes_release_idx: usize,
    pub fixes_rx: Option<Receiver<Vec<GitHubRelease>>>,
    pub fixes_loading: bool,
    pub patch_source_idx: usize,
}

impl Default for RepositoriesState {
    fn default() -> (s: Self)
        ensures
            !s.is_running,
            s.current_job is None,
            s.progress == 0,
            s.remix_source_idx == 0,
            s.remix_releases@.len() == 0,
            s.remix_release_idx == 0,
            s.remix_rx is None,
            !s.remix_loading,
            s.fixes_source_idx == 0,
            s.fixes_releases@.len() == 0,
            s.fixes_release_idx == 0,
            s.fixes_rx is None,
            !s.fixes_loading,
            s.patch_source_idx == 0,
    {
        RepositoriesState {
            is_running: false,
            current_job: None,
            progress: 0,
            remix_source_idx: 0,
            remix_releases: Vec::new(),
            remix_release_idx: 0,
            remix_rx: None,
            remix_loading: false,
            fixes_source_idx: 0,
            fixes_releases: Vec::new(),
            fixes_release_idx: 0,
            fixes_rx: None,
            fixes_loading: false,
            patch_source_idx: 0,
        }
    }
}

impl RepositoriesState {
    /// Like the install tab's polling, but repeated messages are not logged
    /// twice in a row.
    pub fn poll_job(&mut self, global_log: &mut String) -> (finished: bool)
        ensures
            old(self).current_job is None ==> !finished && *final(self) == *old(self) && *final(global_log) == *old(global_log),
            finished ==> !final(self).is_running && final(self).current_job is None,
            old(global_log)@.is_prefix_of(final(global_log)@),
    {
        if self.current_job.is_none() {
            return false;
        }
        let mut finished = false;
        let taken = self.current_job.take();
        match taken {
            Some(rx) => {
                let mut fuel: usize = POLL_BUDGET;
                let mut done = false;
                while !done && fuel > 0
                    invariant
                        finished ==> !self.is_running,
                        self.current_job is None,
                        old(global_log)@.is_prefix_of(global_log@),
                    decreases fuel,
                {
                    let ghost mid = global_log@;
                    match try_recv_opt(&rx) {
                        Some(p) => {
                            self.progress = p.percent;
                            append_line_dedup(global_log, p.message.as_str());
                            proof {
                                assert(mid.is_prefix_of(global_log@));
                                assert(old(global_log)@.is_prefix_of(global_log@));
                            }
                            if p.percent >= 100 {
                                self.is_running = false;
                                finished = true;
                            }
                        },
                        None => {
                            done = true;
                        },
                    }
                    fuel = fuel - 1;
                }
                if !finished {
                    self.current_job = Some(rx);
                }
            },
            None => {},
        }
        finished
    }
}

/// Everything the settings tab keeps between frames.
pub struct SettingsState {}

impl Default for SettingsState {
    fn default() -> (s: Self) {
        SettingsState {  }
    }
}

/// Everything the setup tab keeps between frames.
pub struct SetupState {
    pub is_running: bool,
    pub current_job: Option<Receiver<JobProgress>>,
    pub progress: u8,
    pub setup_completed: bool,
    pub show_quick_install_dialog: bool,
}

impl Default for SetupState {
    fn default() -> (s: Self)
        ensures
            !s.is_running,
            s.current_job is None,
            s.progress == 0,
            !s.setup_completed,
            !s.show_quick_install_dialog,
    {
        SetupState {
            is_running: false,
            current_job: None,
            progress: 0,
            setup_completed: false,
            show_quick_install_dialog: false,
        }
    }
}

impl SetupState {
    /// Like the repositories tab's polling; completion also marks the setup
    /// as done.
    pub fn poll_job(&mut self, global_log: &mut String) -> (finished: bool)
        ensures
            old(self).current_job is None ==> !finished && *final(self) == *old(self) && *final(global_log) == *old(global_log),
            finished ==> !final(self).is_running && final(self).setup_completed && final(self).current_job is None,
            old(global_log)@.is_prefix_of(final(global_log)@),
    {
        if self.current_job.is_none() {
            return false;
        }
        let mut finished = false;
        let taken = self.current_job.take();
        match taken {
            Some(rx) => {
                let mut fuel: usize = POLL_BUDGET;
                let mut done = false;
                while !done && fuel > 0
                    invariant
                        finished ==> !self.is_running && self.setup_completed,
                        self.current_job is None,
                        old(global_log)@.is_prefix_of(global_log@),
                    decreases fuel,
                {
                    let ghost mid = global_log@;
                    match try_recv_opt(&rx) {
                        Some(p) => {
                            self.progress = p.percent;
                            append_line_dedup(global_log, p.message.as_str());
                            proof {
                                assert(mid.is_prefix_of(global_log@));
                                assert(old(global_log)@.is_prefix_of(global_log@));
                            }
                            if p.percent >= 100 {
                                self.is_running = false;
                                self.setup_completed = true;
                                finished = true;
                            }
                        },
                        None => {
                            done = true;
                        },
                    }
                    fuel = fuel - 1;
                }
                if !finished {
                    self.current_job = Some(rx);
                }
            },
            None => {},
        }
        finished
    }
}

} // verus!
