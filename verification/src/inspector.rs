//! Turns what the window system reported about each top-level window into
//! the entries that the trigger is evaluated on.

use crate::text::{file_name, file_name_of};
use vstd::prelude::*;

verus! {

/// One top-level window as the host read it from the window system.
#[derive(PartialEq, Eq, Debug)]
pub struct RawWindow {
    /// The window's title text; empty where it has none.
    pub title: String,
    /// Full path of the owning process's executable, or `None` where it
    /// could not be resolved (the process exited, access was denied).
    pub process_path: Option<String>,
}

/// What a [`RawWindow`] stands for in contracts.
pub struct Observation {
    /// The window's title; empty where it has none.
    pub title: Seq<char>,
    /// Path of the owner's executable, or `None` where it is unknown.
    pub process_path: Option<Seq<char>>,
}

/// One line of a scan: a window's title and the file name of the executable
/// that owns it.
#[derive(PartialEq, Eq, Debug)]
pub struct WindowEntry {
    /// The window's title, never empty in a scan.
    pub title: String,
    /// File name of the owner's executable; empty where it is unknown.
    pub process: String,
}

/// What a [`WindowEntry`] stands for in contracts.
pub struct Entry {
    /// The window's title.
    pub title: Seq<char>,
    /// File name of the owner's executable; empty where it is unknown.
    pub process: Seq<char>,
}

impl View for RawWindow {
    type V = Observation;

    open spec fn view(&self) -> Observation {
        Observation {
            title: self.title@,
            process_path: match self.process_path {
                Some(path) => Some(path@),
                None => None,
            },
        }
    }
}

impl DeepView for RawWindow {
    type V = Observation;

    open spec fn deep_view(&self) -> Observation {
        self@
    }
}

impl View for WindowEntry {
    type V = Entry;

    open spec fn view(&self) -> Entry {
        Entry { title: self.title@, process: self.process@ }
    }
}

impl DeepView for WindowEntry {
    type V = Entry;

    open spec fn deep_view(&self) -> Entry {
        self@
    }
}

impl Clone for RawWindow {
    fn clone(&self) -> (copy: RawWindow)
        ensures
            copy@ == self@,
    {
        RawWindow {
            title: self.title.clone(),
            process_path: match &self.process_path {
                Some(path) => Some(path.clone()),
                None => None,
            },
        }
    }
}

impl Clone for WindowEntry {
    fn clone(&self) -> (copy: WindowEntry)
        ensures
            copy@ == self@,
    {
        WindowEntry { title: self.title.clone(), process: self.process.clone() }
    }
}

/// The owner name recorded for a window: the file name of its executable,
/// or the empty text where the path is unknown.
pub open spec fn owner_name(process_path: Option<Seq<char>>) -> Seq<char> {
    match process_path {
        Some(path) => file_name_of(path),
        None => Seq::empty(),
    }
}

/// The entry that a window contributes to a scan: none where it has no
/// title, else its title with its owner's name.
pub open spec fn entry_of(window: Observation) -> Option<Entry> {
    if window.title.len() == 0 {
        None
    } else {
        Some(Entry { title: window.title, process: owner_name(window.process_path) })
    }
}

/// The scan of a desktop: the entries of its titled windows, in the order
/// in which the windows were reported.
pub open spec fn snapshot_of(windows: Seq<Observation>) -> Seq<Entry> {
    windows.filter_map(|w: Observation| entry_of(w))
}

/// No entry of a scan has an empty title, and each stems from a window
/// that was reported.
pub proof fn lemma_snapshot_entries_are_titled(windows: Seq<Observation>, index: int)
    requires
        0 <= index < snapshot_of(windows).len(),
    ensures
        snapshot_of(windows)[index].title.len() > 0,
        exists|from: int|
            0 <= from < windows.len() && entry_of(#[trigger] windows[from]) == Some(
                snapshot_of(windows)[index],
            ),
{
    let f = |w: Observation| entry_of(w);
    let entry = snapshot_of(windows)[index];
    assert(windows.filter_map(f).contains(entry));
    windows.lemma_filter_map_contains(f, entry);
    let window = choose|w: Observation| #[trigger] windows.contains(w) && f(w) == Some(entry);
    let from = choose|from: int| 0 <= from < windows.len() && windows[from] == window;
    assert(entry_of(windows[from]) == Some(entry));
}

/// A scan is made window by window: what one window contributes does not
/// depend on any other, so a window whose process could not be resolved
/// takes nothing away from the rest.
pub proof fn lemma_snapshot_is_per_window(
    before: Seq<Observation>,
    window: Observation,
    after: Seq<Observation>,
)
    ensures
        snapshot_of(before + seq![window] + after) == snapshot_of(before) + (match entry_of(
            window,
        ) {
            Some(entry) => seq![entry],
            None => Seq::empty(),
        }) + snapshot_of(after),
{
    let f = |w: Observation| entry_of(w);
    lemma_snapshot_concat(before + seq![window], after);
    lemma_snapshot_concat(before, seq![window]);
    Seq::lemma_filter_map_singleton(window, f);
}

/// The scan of two runs of windows is the scan of the first followed by the
/// scan of the second.
pub proof fn lemma_snapshot_concat(first: Seq<Observation>, second: Seq<Observation>)
    ensures
        snapshot_of(first + second) == snapshot_of(first) + snapshot_of(second),
    decreases second.len(),
{
    if second.len() == 0 {
        assert(first + second =~= first);
        assert(snapshot_of(first) + snapshot_of(second) =~= snapshot_of(first));
    } else {
        let whole = first + second;
        assert(whole.drop_last() =~= first + second.drop_last());
        assert(whole.last() == second.last());
        lemma_snapshot_concat(first, second.drop_last());
        match entry_of(second.last()) {
            Some(entry) => {
                assert(snapshot_of(whole) =~= snapshot_of(first) + snapshot_of(second));
            },
            None => {},
        }
    }
}

impl RawWindow {
    /// The entry this window contributes to a scan, if any.
    pub fn entry(&self) -> (entry: Option<WindowEntry>)
        ensures
            entry.deep_view() == entry_of(self@),
    {
        if self.title.as_str().is_empty() {
            None
        } else {
            let process = match &self.process_path {
                Some(path) => file_name(path.as_str()).to_owned(),
                None => String::new(),
            };
            Some(WindowEntry { title: self.title.clone(), process })
        }
    }
}

/// Scans the reported windows: skips those without a title and records, for
/// each of the others, its title and the file name of its owner.
pub fn snapshot(windows: &Vec<RawWindow>) -> (entries: Vec<WindowEntry>)
    ensures
        entries.deep_view() == snapshot_of(windows.deep_view()),
{
    let mut entries: Vec<WindowEntry> = Vec::new();
    for at in 0..windows.len()
        invariant
            entries.deep_view() == snapshot_of(windows.deep_view().take(at as int)),
    {
        proof {
            let all = windows.deep_view();
            assert(all.take(at + 1).drop_last() =~= all.take(at as int));
            assert(all.take(at + 1).last() == windows[at as int]@);
        }
        match windows[at].entry() {
            Some(entry) => {
                entries.push(entry);
                assert(entries.deep_view() =~= snapshot_of(windows.deep_view().take(at + 1)));
            },
            None => {},
        }
    }
    proof {
        let all = windows.deep_view();
        assert(all.take(windows.len() as int) =~= all);
    }
    entries
}

} // verus!
