//! Which graphs belong to the state of the recorder.
use crate::app::app;
use crate::app::app::{App, RecordingMode};
use crate::audio::waveform_loader;
use crate::audio::waveform_loader::{WaveformLoader, WaveformSlot};
use crate::utils::paths;
use vstd::prelude::*;

verus! {

/// The place whose predecessor is shown. The predecessor of a take is the fragment
/// before the place it goes to.
pub open spec fn place_after_previous(a: app::AppModel) -> int {
    let total = a.project.files.len() as int;
    if a.state is Recording {
        match a.recording_mode {
            RecordingMode::Append => total,
            RecordingMode::Update => match a.update_recording_index {
                Some(i) => i as int,
                None => 0,
            },
            RecordingMode::Insert => match a.insert_recording_index {
                Some(i) => i as int,
                None => 0,
            },
        }
    } else {
        shown_place(a)
    }
}

/// The place of the selected fragment.
pub open spec fn shown_place(a: app::AppModel) -> int {
    match a.current_index {
        Some(i) => i as int,
        None => if a.project.files.len() == 0 {
            0
        } else {
            a.project.files.len() - 1
        },
    }
}

/// The full path of a fragment's recording.
pub open spec fn recording_path(a: app::AppModel, i: int) -> Seq<char> {
    paths::joined(app::project_dir(a.project_path), a.project.files[i].path)
}

/// Whether looking for the recording of a fragment said that it is there or not.
pub open spec fn looked_up<H: Fn(&str) -> bool>(
    there: &H,
    a: app::AppModel,
    i: int,
    found: bool,
) -> bool {
    exists|path: &str| #[trigger]
        call_ensures(there, (path,), found) && path@ == recording_path(a, i)
}

impl App {
    fn shown_index(&self) -> (r: usize)
        ensures
            r == shown_place(self@),
    {
        let total: usize = self.project.files.len();
        assert(total == self@.project.files.len());
        match self.current_index {
            Some(i) => i,
            None => if total > 0 {
                total - 1
            } else {
                0
            },
        }
    }

    /// The recording whose graph is shown as the previous one: the nearest fragment
    /// before, whose recording is there.
    pub fn previous_graph_path<H: Fn(&str) -> bool>(&self, there: &H) -> (r: Option<String>)
        requires
            forall|path: &str| call_requires(there, (path,)),
        ensures
            ({
                let total = self@.project.files.len() as int;
                let place = vstd::math::min(place_after_previous(self@), total);
                match r {
                    Some(path) => exists|i: int| #[trigger]
                        looked_up(there, self@, i, true) && 0 <= i < place && path@
                            == recording_path(self@, i) && forall|k: int|
                            i < k < place ==> #[trigger] looked_up(there, self@, k, false),
                    None => forall|k: int|
                        0 <= k < place ==> #[trigger] looked_up(there, self@, k, false),
                }
            }),
    {
        let total: usize = self.project.files.len();
        assert(total == self@.project.files.len());
        let place: usize = if self.is_recording() {
            match self.recording_mode {
                RecordingMode::Append => total,
                RecordingMode::Update => match self.update_recording_index {
                    Some(i) => i,
                    None => 0,
                },
                RecordingMode::Insert => match self.insert_recording_index {
                    Some(i) => i,
                    None => 0,
                },
            }
        } else {
            self.shown_index()
        };
        let top: usize = if place < total {
            place
        } else {
            total
        };
        let mut i: usize = top;
        while i > 0
            invariant
                i <= top <= total,
                total == self@.project.files.len(),
                total == self.project.files@.len(),
                top == vstd::math::min(place_after_previous(self@), total as int),
                forall|path: &str| call_requires(there, (path,)),
                forall|k: int| i <= k < top ==> #[trigger] looked_up(there, self@, k, false),
            decreases i,
        {
            i = i - 1;
            assert(self@.project.files[i as int].path == self.project.files@[i as int].path@);
            let path = self.resolve_file_path(self.project.files[i].path.as_str());
            let name = path.as_str();
            let found = there(name);
            assert(call_ensures(there, (name,), found) && name@ == recording_path(self@, i as int));
            assert(looked_up(there, self@, i as int, found));
            if found {
                return Some(path);
            }
        }
        None
    }

    /// The recording whose graph is shown for the selection. A running take shows
    /// its own.
    pub fn current_graph_path(&self) -> (r: Option<Option<String>>)
        ensures
            match r {
                None => self@.state is Recording,
                Some(path) => !(self@.state is Recording) && ({
                    let i = shown_place(self@);
                    match path {
                        Some(path) => i < self@.project.files.len() && path@ == recording_path(
                            self@,
                            i,
                        ),
                        None => i >= self@.project.files.len(),
                    }
                }),
            },
    {
        if self.is_recording() {
            return None;
        }
        let i: usize = self.shown_index();
        assert(self.project.files@.len() == self@.project.files.len());
        if i < self.project.files.len() {
            assert(self@.project.files[i as int].path == self.project.files@[i as int].path@);
            Some(Some(self.resolve_file_path(self.project.files[i].path.as_str())))
        } else {
            Some(None)
        }
    }
}

/// What becomes of the graph in a slot.
#[derive(Clone, Copy, Debug, PartialEq, Eq, Structural)]
pub enum GraphChange {
    /// It is wanted already, and stays.
    Kept,
    /// It is forgotten and asked for anew.
    Loading,
    /// There is none.
    Cleared,
}

/// Asks for the graph of a recording, or gives the graph up if there is none.
pub fn fill_graph(loader: &mut WaveformLoader, slot: WaveformSlot, path: Option<String>) -> (r:
    GraphChange)
    ensures
        match path {
            Some(path) => {
                &&& final(loader)@ == waveform_loader::after_request(old(loader)@, slot, path@)
                &&& r == (if waveform_loader::wants(old(loader)@, slot, path@) {
                    GraphChange::Kept
                } else {
                    GraphChange::Loading
                })
            },
            None => {
                &&& final(loader)@ == waveform_loader::after_clear(old(loader)@, slot)
                &&& r == GraphChange::Cleared
            },
        },
{
    match path {
        Some(path) => if loader.request(slot, path) {
            GraphChange::Loading
        } else {
            GraphChange::Kept
        },
        None => {
            loader.clear(slot);
            GraphChange::Cleared
        },
    }
}

} // verus!
