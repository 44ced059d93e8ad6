//! Decides from one scan whether the trigger condition holds.

use crate::inspector::{
    entry_of, lemma_snapshot_concat, lemma_snapshot_is_per_window, snapshot_of, Entry, Observation,
    WindowEntry,
};
use crate::text::{eq_ignore_ascii_case, same_ignoring_ascii_case};
use vstd::prelude::*;

verus! {

/// Executable whose windows are watched unless a caller says otherwise.
pub const TARGET_BIN: &'static str = "spotify.exe";

/// Window title that signals an interruption unless a caller says otherwise.
pub const TRIGGER_TITLE: &'static str = "Advertisement";

/// Which window counts as the trigger: fixed when a monitor is built.
#[derive(PartialEq, Eq, Debug)]
pub struct TriggerConfig {
    target_bin: String,
    trigger_title: String,
}

/// What a [`TriggerConfig`] stands for in contracts.
pub struct Trigger {
    /// File name of the target executable, compared without regard to ASCII case.
    pub target: Seq<char>,
    /// Title of the trigger window, compared exactly.
    pub title: Seq<char>,
}

impl View for TriggerConfig {
    type V = Trigger;

    closed spec fn view(&self) -> Trigger {
        Trigger { target: self.target_bin@, title: self.trigger_title@ }
    }
}

/// An entry matches when its owner is the target, up to ASCII case, and its
/// title is the trigger title, character for character.
pub open spec fn entry_matches(entry: Entry, trigger: Trigger) -> bool {
    same_ignoring_ascii_case(entry.process, trigger.target) && entry.title == trigger.title
}

/// The trigger is active on a scan when at least one of its entries matches.
pub open spec fn trigger_active(snapshot: Seq<Entry>, trigger: Trigger) -> bool {
    exists|i: int| 0 <= i < snapshot.len() && entry_matches(#[trigger] snapshot[i], trigger)
}

impl TriggerConfig {
    /// A trigger on windows of `target_bin` titled `trigger_title`.
    pub fn new(target_bin: String, trigger_title: String) -> (config: TriggerConfig)
        ensures
            config@ == (Trigger { target: target_bin@, title: trigger_title@ }),
    {
        TriggerConfig { target_bin, trigger_title }
    }

    /// File name of the target executable.
    pub fn target_bin(&self) -> (name: &str)
        ensures
            name@ == self@.target,
    {
        self.target_bin.as_str()
    }

    /// Title of the trigger window.
    pub fn trigger_title(&self) -> (title: &str)
        ensures
            title@ == self@.title,
    {
        self.trigger_title.as_str()
    }

    /// Whether `entry` is a trigger window.
    pub fn matches(&self, entry: &WindowEntry) -> (hit: bool)
        ensures
            hit == entry_matches(entry@, self@),
    {
        eq_ignore_ascii_case(entry.process.as_str(), self.target_bin.as_str())
            && entry.title == self.trigger_title
    }
}

impl Clone for TriggerConfig {
    fn clone(&self) -> (copy: TriggerConfig)
        ensures
            copy@ == self@,
    {
        TriggerConfig {
            target_bin: self.target_bin.clone(),
            trigger_title: self.trigger_title.clone(),
        }
    }
}

impl Default for TriggerConfig {
    /// The trigger on [`TARGET_BIN`] and [`TRIGGER_TITLE`].
    fn default() -> (config: TriggerConfig)
        ensures
            config@ == (Trigger { target: TARGET_BIN@, title: TRIGGER_TITLE@ }),
    {
        TriggerConfig { target_bin: TARGET_BIN.to_owned(), trigger_title: TRIGGER_TITLE.to_owned() }
    }
}

/// Whether the trigger is active on `snapshot`: stops at the first match.
pub fn evaluate(snapshot: &Vec<WindowEntry>, config: &TriggerConfig) -> (active: bool)
    ensures
        active == trigger_active(snapshot.deep_view(), config@),
{
    for at in 0..snapshot.len()
        invariant
            forall|i: int|
                0 <= i < at ==> !entry_matches(#[trigger] snapshot.deep_view()[i], config@),
    {
        if config.matches(&snapshot[at]) {
            assert(entry_matches(snapshot.deep_view()[at as int], config@));
            return true;
        }
    }
    false
}

/// The order of a scan's entries does not matter: two scans that hold the
/// same entries, each as often as the other, give the same answer.
pub proof fn lemma_evaluate_ignores_order(first: Seq<Entry>, second: Seq<Entry>, trigger: Trigger)
    requires
        first.to_multiset() == second.to_multiset(),
    ensures
        trigger_active(first, trigger) == trigger_active(second, trigger),
{
    lemma_active_from_multiset(first, second, trigger);
    lemma_active_from_multiset(second, first, trigger);
}

proof fn lemma_active_from_multiset(first: Seq<Entry>, second: Seq<Entry>, trigger: Trigger)
    requires
        first.to_multiset() == second.to_multiset(),
    ensures
        trigger_active(first, trigger) ==> trigger_active(second, trigger),
{
    if trigger_active(first, trigger) {
        let i = choose|i: int| 0 <= i < first.len() && entry_matches(#[trigger] first[i], trigger);
        let entry = first[i];
        first.to_multiset_ensures();
        second.to_multiset_ensures();
        assert(first.contains(entry));
        assert(second.to_multiset().count(entry) > 0);
        assert(second.contains(entry));
        let j = choose|j: int| 0 <= j < second.len() && second[j] == entry;
        assert(entry_matches(second[j], trigger));
    }
}

/// A window whose owner is unknown is recorded with an empty name, and an
/// empty name is the target only where the target itself is empty.
pub proof fn lemma_unresolved_owner_never_matches(entry: Entry, trigger: Trigger)
    requires
        entry.process.len() == 0,
        trigger.target.len() > 0,
    ensures
        !entry_matches(entry, trigger),
{
    assert(crate::text::ascii_folded(entry.process).len() == 0);
    assert(crate::text::ascii_folded(trigger.target).len() == trigger.target.len());
}

/// The trigger is active on two scans put together when it is active on
/// one of them.
pub proof fn lemma_active_on_either_part(first: Seq<Entry>, second: Seq<Entry>, trigger: Trigger)
    ensures
        trigger_active(first + second, trigger) == (trigger_active(first, trigger)
            || trigger_active(second, trigger)),
{
    let whole = first + second;
    if trigger_active(whole, trigger) {
        let i = choose|i: int| 0 <= i < whole.len() && entry_matches(#[trigger] whole[i], trigger);
        if i < first.len() {
            assert(entry_matches(first[i], trigger));
        } else {
            assert(entry_matches(second[i - first.len()], trigger));
        }
    }
    if trigger_active(first, trigger) {
        let i = choose|i: int| 0 <= i < first.len() && entry_matches(#[trigger] first[i], trigger);
        assert(entry_matches(whole[i], trigger));
    }
    if trigger_active(second, trigger) {
        let i = choose|i: int|
            0 <= i < second.len() && entry_matches(#[trigger] second[i], trigger);
        assert(entry_matches(whole[first.len() + i], trigger));
    }
}

/// A window whose owner could not be resolved is as good as absent: for a
/// trigger with a named target, the windows before and after it decide
/// alone, whatever its title.
pub proof fn lemma_unresolved_window_is_as_good_as_absent(
    before: Seq<Observation>,
    title: Seq<char>,
    after: Seq<Observation>,
    trigger: Trigger,
)
    requires
        trigger.target.len() > 0,
    ensures
        trigger_active(
            snapshot_of(before + seq![Observation { title, process_path: None }] + after),
            trigger,
        ) == trigger_active(snapshot_of(before + after), trigger),
{
    let window = Observation { title, process_path: None };
    let own = match entry_of(window) {
        Some(entry) => seq![entry],
        None => Seq::empty(),
    };
    lemma_snapshot_is_per_window(before, window, after);
    lemma_snapshot_concat(before, after);
    lemma_active_on_either_part(snapshot_of(before) + own, snapshot_of(after), trigger);
    lemma_active_on_either_part(snapshot_of(before), own, trigger);
    lemma_active_on_either_part(snapshot_of(before), snapshot_of(after), trigger);
    if trigger_active(own, trigger) {
        let i = choose|i: int| 0 <= i < own.len() && entry_matches(#[trigger] own[i], trigger);
        lemma_unresolved_owner_never_matches(own[i], trigger);
    }
}

} // verus!
