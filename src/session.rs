use vstd::prelude::*;

use crate::gateway::DeviceError;
use crate::ids::{distinct, distinct_ids, holds_id, id_set, retain_held, without};
use crate::protocol::{Command, Event};
use crate::text::{decimal, decimal_string};

verus! {

/// Whether the device can take a command.
#[derive(Clone, Debug, PartialEq, Eq)]
pub enum Status {
    Ready,
    Busy,
    /// The last refresh failed, for this reason.
    Error(DeviceError),
}

/// What the surface knows of the device: folded from the worker's events.
#[derive(Debug)]
pub struct Session {
    /// The identifiers the device last listed, each once.
    pub installed: Vec<String>,
    /// The operator's chosen targets, each once, all installed.
    pub selected: Vec<String>,
    pub status: Status,
    pub device_name: String,
    pub status_message: String,
    /// Packages attempted so far in the running batch, and the batch's size.
    pub progress: (usize, usize),
}

pub open spec fn no_device_name() -> Seq<char> {
    "No Device Connected"@
}

pub open spec fn progress_message(done: usize, total: usize) -> Seq<char> {
    "Purging "@ + decimal(done as nat) + " of "@ + decimal(total as nat) + "..."@
}

/// The message shown while a command is under way.
pub open spec fn submitted_message(cmd: Command, before: Seq<char>) -> Seq<char> {
    match cmd {
        Command::DetectAndRefresh => "Scanning for devices..."@,
        Command::Reboot => "Sending reboot command..."@,
        Command::Uninstall(_) => before,
    }
}

impl Session {
    pub open spec fn wf(&self) -> bool {
        &&& distinct(self.installed@)
        &&& distinct(self.selected@)
        &&& id_set(self.selected@).subset_of(id_set(self.installed@))
    }

    pub open spec fn installed_set(&self) -> Set<Seq<char>> {
        id_set(self.installed@)
    }

    pub open spec fn selected_set(&self) -> Set<Seq<char>> {
        id_set(self.selected@)
    }

    pub open spec fn busy(&self) -> bool {
        self.status is Busy
    }

    /// A session with no device, nothing installed and nothing selected.
    pub fn new() -> (r: Session)
        ensures
            r.wf(),
            r.installed@.len() == 0,
            r.selected@.len() == 0,
            r.status == Status::Ready,
            r.device_name@ == no_device_name(),
            r.status_message@ == "Welcome! Connect your device to begin."@,
            r.progress == (0usize, 0usize),
    {
        Session {
            installed: Vec::new(),
            selected: Vec::new(),
            status: Status::Ready,
            device_name: String::from_str("No Device Connected"),
            status_message: String::from_str("Welcome! Connect your device to begin."),
            progress: (0, 0),
        }
    }

    pub fn is_busy(&self) -> (r: bool)
        ensures
            r == self.busy(),
    {
        match self.status {
            Status::Busy => true,
            _ => false,
        }
    }

    /// Passes `cmd` on to the worker (`Ok`) unless a command is already under
    /// way, in which case it is refused (`Err`) and nothing changes.
    pub fn submit(&mut self, cmd: Command) -> (r: Result<Command, Command>)
        ensures
            old(self).busy() ==> r == Err::<Command, Command>(cmd) && *final(self) == *old(self),
            !old(self).busy() ==> {
                &&& r == Ok::<Command, Command>(cmd)
                &&& final(self).status == Status::Busy
                &&& final(self).status_message@ == submitted_message(cmd, old(self).status_message@)
                &&& final(self).installed == old(self).installed
                &&& final(self).selected == old(self).selected
                &&& final(self).device_name == old(self).device_name
                &&& final(self).progress == old(self).progress
            },
    {
        if self.is_busy() {
            return Err(cmd);
        }
        self.status = Status::Busy;
        match &cmd {
            Command::DetectAndRefresh => {
                self.status_message = String::from_str("Scanning for devices...");
            },
            Command::Reboot => {
                self.status_message = String::from_str("Sending reboot command...");
            },
            Command::Uninstall(_) => {},
        }
        Ok(cmd)
    }

    /// Asks to uninstall the selected packages: `Some` with the command to
    /// pass on when something is selected and no command is under way.
    pub fn purge_selected(&mut self) -> (r: Option<Command>)
        requires
            old(self).wf(),
        ensures
            final(self).wf(),
            (old(self).busy() || old(self).selected@.len() == 0) ==> r is None && *final(self)
                == *old(self),
            !(old(self).busy() || old(self).selected@.len() == 0) ==> {
                &&& r is Some && r->Some_0 is Uninstall
                &&& r->Some_0->Uninstall_0@ == old(self).selected@
                &&& final(self).status == Status::Busy
                &&& final(self).installed == old(self).installed
                &&& final(self).selected == old(self).selected
                &&& final(self).status_message == old(self).status_message
            },
    {
        if self.is_busy() || self.selected.len() == 0 {
            return None;
        }
        let mut targets: Vec<String> = Vec::new();
        let mut i: usize = 0;
        while i < self.selected.len()
            invariant
                i <= self.selected@.len(),
                targets@ == self.selected@.take(i as int),
            decreases self.selected@.len() - i,
        {
            targets.push(self.selected[i].clone());
            assert(targets@ =~= self.selected@.take(i + 1));
            i = i + 1;
        }
        assert(self.selected@.take(self.selected@.len() as int) =~= self.selected@);
        self.status = Status::Busy;
        Some(Command::Uninstall(targets))
    }

    /// Folds one event from the worker into the session; returns the command
    /// that the event sets off, if any.
    pub fn apply(&mut self, ev: Event) -> (r: Option<Command>)
        requires
            old(self).wf(),
        ensures
            final(self).wf(),
            match ev {
                Event::RefreshSucceeded(model, ids) => {
                    &&& r is None
                    &&& final(self).status == Status::Ready
                    &&& final(self).device_name == model
                    &&& final(self).installed_set() == id_set(ids@)
                    &&& final(self).selected_set() == old(self).selected_set().intersect(id_set(ids@))
                    &&& final(self).status_message@ == "Ready."@
                    &&& final(self).progress == old(self).progress
                },
                Event::RefreshFailed(e) => {
                    &&& r is None
                    &&& final(self).status == Status::Error(e)
                    &&& final(self).device_name@ == no_device_name()
                    &&& final(self).installed@.len() == 0
                    &&& final(self).selected@.len() == 0
                    &&& final(self).status_message@ == "Error: "@ + e.reason_spec()
                    &&& final(self).progress == old(self).progress
                },
                Event::UninstallProgress(done, total) => {
                    &&& r is None
                    &&& final(self).status == old(self).status
                    &&& final(self).progress == (done, total)
                    &&& final(self).status_message@ == progress_message(done, total)
                    &&& final(self).installed == old(self).installed
                    &&& final(self).selected == old(self).selected
                    &&& final(self).device_name == old(self).device_name
                },
                Event::UninstallFinished => {
                    &&& r == Some(Command::DetectAndRefresh)
                    &&& final(self).status == old(self).status
                    &&& final(self).selected@.len() == 0
                    &&& final(self).progress == (0usize, 0usize)
                    &&& final(self).status_message@ == "Purge complete. Refreshing..."@
                    &&& final(self).installed == old(self).installed
                    &&& final(self).device_name == old(self).device_name
                },
                Event::RebootFinished => {
                    &&& r is None
                    &&& final(self).status == Status::Ready
                    &&& final(self).status_message@ == "Reboot command sent."@
                    &&& final(self).installed == old(self).installed
                    &&& final(self).selected == old(self).selected
                    &&& final(self).device_name == old(self).device_name
                    &&& final(self).progress == old(self).progress
                },
            },
    {
        match ev {
            Event::RefreshSucceeded(model, ids) => {
                let installed = distinct_ids(&ids);
                let selected = retain_held(&self.selected, &installed);
                self.installed = installed;
                self.selected = selected;
                self.device_name = model;
                self.status = Status::Ready;
                self.status_message = String::from_str("Ready.");
                None
            },
            Event::RefreshFailed(e) => {
                let mut msg = String::from_str("Error: ");
                let reason = e.reason();
                msg.append(reason.as_str());
                self.installed = Vec::new();
                self.selected = Vec::new();
                self.device_name = String::from_str("No Device Connected");
                self.status = Status::Error(e);
                self.status_message = msg;
                None
            },
            Event::UninstallProgress(done, total) => {
                let mut msg = String::from_str("Purging ");
                let d = decimal_string(done);
                msg.append(d.as_str());
                msg.append(" of ");
                let t = decimal_string(total);
                msg.append(t.as_str());
                msg.append("...");
                self.progress = (done, total);
                self.status_message = msg;
                None
            },
            Event::UninstallFinished => {
                self.selected = Vec::new();
                self.progress = (0, 0);
                self.status_message = String::from_str("Purge complete. Refreshing...");
                Some(Command::DetectAndRefresh)
            },
            Event::RebootFinished => {
                self.status = Status::Ready;
                self.status_message = String::from_str("Reboot command sent.");
                None
            },
        }
    }

    /// Selects an installed package that is not selected, and deselects one
    /// that is; an identifier that is not installed changes nothing.
    pub fn toggle(&mut self, id: &String)
        requires
            old(self).wf(),
        ensures
            final(self).wf(),
            final(self).installed == old(self).installed,
            final(self).status == old(self).status,
            final(self).device_name == old(self).device_name,
            final(self).status_message == old(self).status_message,
            final(self).progress == old(self).progress,
            !old(self).installed_set().contains(id@) ==> final(self).selected == old(self).selected,
            old(self).installed_set().contains(id@) && old(self).selected_set().contains(id@)
                ==> final(self).selected_set() == old(self).selected_set().remove(id@),
            old(self).installed_set().contains(id@) && !old(self).selected_set().contains(id@)
                ==> final(self).selected_set() == old(self).selected_set().insert(id@),
    {
        if !holds_id(&self.installed, id) {
            return;
        }
        if holds_id(&self.selected, id) {
            self.selected = without(&self.selected, id);
        } else {
            let ghost before = self.selected@;
            self.selected.push(id.clone());
            assert(self.selected@[before.len() as int]@ == id@);
            assert(id_set(self.selected@) =~= id_set(before).insert(id@)) by {
                assert forall|s: Seq<char>| id_set(before).insert(id@).contains(s) implies id_set(self.selected@).contains(s) by {
                    if s != id@ {
                        let m = choose|m: int| 0 <= m < before.len() && #[trigger] before[m]@ == s;
                        assert(self.selected@[m]@ == s);
                    }
                }
                assert forall|s: Seq<char>| id_set(self.selected@).contains(s) implies id_set(before).insert(id@).contains(s) by {
                    let m = choose|m: int| 0 <= m < self.selected@.len() && #[trigger] self.selected@[m]@ == s;
                    if m < before.len() {
                        assert(before[m]@ == s);
                    }
                }
            }
            assert forall|m: int| 0 <= m < before.len() implies before[m]@ != id@ by {
                assert(id_set(before).contains(before[m]@));
            }
        }
    }

    /// Selects every installed package among `ids`.
    pub fn select_all(&mut self, ids: &Vec<String>)
        requires
            old(self).wf(),
        ensures
            final(self).wf(),
            final(self).installed == old(self).installed,
            final(self).status == old(self).status,
            final(self).device_name == old(self).device_name,
            final(self).status_message == old(self).status_message,
            final(self).progress == old(self).progress,
            final(self).selected_set() == old(self).selected_set().union(
                id_set(ids@).intersect(old(self).installed_set()),
            ),
    {
        let mut i: usize = 0;
        while i < ids.len()
            invariant
                i <= ids@.len(),
                self.wf(),
                self.installed == old(self).installed,
                self.status == old(self).status,
                self.device_name == old(self).device_name,
                self.status_message == old(self).status_message,
                self.progress == old(self).progress,
                self.selected_set() == old(self).selected_set().union(
                    id_set(ids@.take(i as int)).intersect(old(self).installed_set()),
                ),
            decreases ids@.len() - i,
        {
            let ghost before = self.selected@;
            let ghost target = old(self).selected_set().union(
                id_set(ids@.take(i + 1)).intersect(old(self).installed_set()),
            );
            if holds_id(&self.installed, &ids[i]) && !holds_id(&self.selected, &ids[i]) {
                self.selected.push(ids[i].clone());
                assert(self.selected@[before.len() as int]@ == ids@[i as int]@);
                assert forall|m: int| 0 <= m < before.len() implies before[m]@ != ids@[i as int]@ by {
                    assert(id_set(before).contains(before[m]@));
                }
                assert forall|s: Seq<char>| id_set(self.selected@).contains(s) implies id_set(self.installed@).contains(s) by {
                    let m = choose|m: int| 0 <= m < self.selected@.len() && #[trigger] self.selected@[m]@ == s;
                    if m < before.len() {
                        assert(id_set(before).contains(s));
                    }
                }
            }
            assert(self.selected_set() =~= target) by {
                assert forall|s: Seq<char>| target.contains(s) implies self.selected_set().contains(s) by {
                    if id_set(before).contains(s) {
                        let m = choose|m: int| 0 <= m < before.len() && #[trigger] before[m]@ == s;
                        assert(self.selected@[m]@ == s);
                    } else if id_set(ids@.take(i as int)).contains(s) && old(self).installed_set().contains(s) {
                    } else {
                        let k = choose|k: int| 0 <= k < i + 1 && #[trigger] ids@.take(i + 1)[k]@ == s;
                        if k < i {
                            assert(ids@.take(i as int)[k]@ == s);
                        } else {
                            assert(ids@[i as int]@ == s);
                        }
                    }
                }
                assert forall|s: Seq<char>| self.selected_set().contains(s) implies target.contains(s) by {
                    let m = choose|m: int| 0 <= m < self.selected@.len() && #[trigger] self.selected@[m]@ == s;
                    if m < before.len() {
                        assert(id_set(before).contains(s));
                        if !old(self).selected_set().contains(s) {
                            let k = choose|k: int| 0 <= k < i && #[trigger] ids@.take(i as int)[k]@ == s;
                            assert(ids@.take(i + 1)[k]@ == s);
                        }
                    } else {
                        assert(ids@.take(i + 1)[i as int]@ == s);
                    }
                }
            }
            i = i + 1;
        }
        assert(ids@.take(ids@.len() as int) =~= ids@);
    }

    /// Deselects everything.
    pub fn clear_selection(&mut self)
        requires
            old(self).wf(),
        ensures
            final(self).wf(),
            final(self).selected@.len() == 0,
            final(self).installed == old(self).installed,
            final(self).status == old(self).status,
            final(self).device_name == old(self).device_name,
            final(self).status_message == old(self).status_message,
            final(self).progress == old(self).progress,
    {
        self.selected = Vec::new();
    }
}

} // verus!
