//! Watching the synced folder: which folder is watched, and which changed files wait for
//! upload. The watching itself (a debounced file-system watcher on a thread) is the caller's.
use vstd::prelude::*;
use crate::ipj::strings_view;
use crate::paths::{opt_view, path_eq, same_path};
use crate::scan::{should_skip_file, skip_spec};
use crate::text::{decimal, decimal_string};
use vstd::string::StringExecFns;

verus! {

/// `std::sync::mpsc::Sender`, carried through as an opaque value: nothing is claimed of it.
#[verifier::external_type_specification]
#[verifier::external_body]
#[verifier::reject_recursive_types(T)]
pub struct ExSender<T>(std::sync::mpsc::Sender<T>);

/// The watcher that runs, if any: the channel that stops it and the folder it watches.
pub struct WatchController {
    pub stop_tx: Option<std::sync::mpsc::Sender<()>>,
    pub current_path: Option<String>,
}

impl Default for WatchController {
    fn default() -> (c: Self)
        ensures
            c.stop_tx is None,
            c.current_path is None,
    {
        WatchController { stop_tx: None, current_path: None }
    }
}

impl WatchController {
    /// Whether the running watcher already watches `path`, so that nothing needs to change.
    pub fn is_watching(&self, path: &str) -> (r: bool)
        ensures
            r == (self.current_path matches Some(p) && path_eq(p@, path@)),
            (self.current_path matches Some(p) && p@ == path@) ==> r,
    {
        match &self.current_path {
            Some(p) => same_path(p.as_str(), path),
            None => false,
        }
    }

    /// Records a new watcher for `path`, stopped through `stop_tx`; gives back the previous
    /// watcher's stop channel, which the caller signals.
    pub fn switch_to(&mut self, path: String, stop_tx: std::sync::mpsc::Sender<()>) -> (prev: Option<std::sync::mpsc::Sender<()>>)
        ensures
            prev == old(self).stop_tx,
            final(self).stop_tx == Some(stop_tx),
            opt_view(final(self).current_path) == Some(path@),
    {
        let prev = self.stop_tx.take();
        self.stop_tx = Some(stop_tx);
        self.current_path = Some(path);
        prev
    }
}

/// A debounced file-system event: the path it concerns, whether it is of the plain "any
/// change" kind, and whether that path is now a regular file.
#[derive(Debug)]
pub struct WatchEvent {
    pub path: String,
    pub any_kind: bool,
    pub is_file: bool,
}

/// The files waiting for upload, as told to the user interface.
#[derive(Debug)]
pub struct PendingFiles {
    pub count: usize,
    pub files: Vec<String>,
}

/// How long a changed file may wait for upload before the user is reminded of it, in
/// milliseconds: five minutes.
pub const UPLOAD_REMINDER_AFTER_MS: u64 = 300000;

/// A changed file waiting for upload: its path, when its change was first seen (milliseconds
/// on the caller's clock), and whether the user has been reminded of it.
pub struct PendingEntry {
    pub path: String,
    pub since: u64,
    pub reminded: bool,
}

pub struct PendingEntryView {
    pub path: Seq<char>,
    pub since: u64,
    pub reminded: bool,
}

impl View for PendingEntry {
    type V = PendingEntryView;

    open spec fn view(&self) -> PendingEntryView {
        PendingEntryView { path: self.path@, since: self.since, reminded: self.reminded }
    }
}

/// The changed files not yet uploaded, in the order their changes were first seen.
pub struct PendingUploads {
    pub entries: Vec<PendingEntry>,
}

/// The paths of the pending entries, in order.
pub open spec fn pending_paths(set: Seq<PendingEntryView>) -> Seq<Seq<char>> {
    set.map_values(|e: PendingEntryView| e.path)
}

/// Whether some pending entry names the same path as `p`.
pub open spec fn holds_path(set: Seq<PendingEntryView>, p: Seq<char>) -> bool {
    exists|i: int| 0 <= i < set.len() && path_eq(set[i].path, p)
}

/// What one event seen at `now` does to the pending set: a changed regular file that is
/// neither hidden nor a temporary joins it, waiting since `now`, unless it is already there.
pub open spec fn pending_step(set: Seq<PendingEntryView>, e: WatchEvent, now: u64) -> Seq<
    PendingEntryView,
> {
    if e.any_kind && !skip_spec(e.path@) && e.is_file && !holds_path(set, e.path@) {
        set.push(PendingEntryView { path: e.path@, since: now, reminded: false })
    } else {
        set
    }
}

/// The pending set after the events, in order, all seen at `now`.
pub open spec fn pending_after(set: Seq<PendingEntryView>, events: Seq<WatchEvent>, now: u64) -> Seq<
    PendingEntryView,
>
    decreases events.len(),
{
    if events.len() == 0 {
        set
    } else {
        pending_step(pending_after(set, events.drop_last(), now), events.last(), now)
    }
}

/// No two pending entries name the same path, and none is hidden or a temporary.
pub open spec fn pending_wf(set: Seq<PendingEntryView>) -> bool {
    &&& forall|i: int, j: int| 0 <= i < j < set.len() ==> !path_eq(set[i].path, set[j].path)
    &&& forall|i: int| 0 <= i < set.len() ==> !skip_spec(#[trigger] set[i].path)
}

/// Whether the user is due a reminder of the entry at `now`: it has waited `after`
/// milliseconds or more and no reminder was given yet.
pub open spec fn reminder_due(e: PendingEntryView, now: u64, after: u64) -> bool {
    !e.reminded && e.since + after <= now
}

/// The paths of the entries due a reminder, in order.
pub open spec fn due_paths(set: Seq<PendingEntryView>, now: u64, after: u64) -> Seq<Seq<char>>
    decreases set.len(),
{
    if set.len() == 0 {
        Seq::empty()
    } else {
        let rest = due_paths(set.drop_last(), now, after);
        if reminder_due(set.last(), now, after) {
            rest.push(set.last().path)
        } else {
            rest
        }
    }
}

/// The entry after a reminder round at `now`: reminded where it was due.
pub open spec fn after_reminder(e: PendingEntryView, now: u64, after: u64) -> PendingEntryView {
    PendingEntryView {
        path: e.path,
        since: e.since,
        reminded: e.reminded || reminder_due(e, now, after),
    }
}

impl PendingUploads {
    pub open spec fn view(&self) -> Seq<PendingEntryView> {
        self.entries@.map_values(|e: PendingEntry| e@)
    }

    pub fn new() -> (p: Self)
        ensures
            p.view() == Seq::<PendingEntryView>::empty(),
    {
        let p = PendingUploads { entries: Vec::new() };
        assert(p.view() =~= Seq::<PendingEntryView>::empty());
        p
    }

    /// The paths of the pending files, in order.
    pub fn paths(&self) -> (r: Vec<String>)
        ensures
            strings_view(r@) == pending_paths(self.view()),
    {
        let mut r: Vec<String> = Vec::new();
        let mut i: usize = 0;
        while i < self.entries.len()
            invariant
                0 <= i <= self.entries.len(),
                r@.len() == i,
                forall|k: int| 0 <= k < i ==> #[trigger] r@[k]@ == self.entries@[k].path@,
            decreases self.entries.len() - i,
        {
            r.push(self.entries[i].path.clone());
            i = i + 1;
        }
        assert(strings_view(r@) =~= pending_paths(self.view()));
        r
    }

    /// Adds the files the events seen at `now` concern and, when any file waits, says which.
    pub fn record(&mut self, events: &Vec<WatchEvent>, now: u64) -> (r: Option<PendingFiles>)
        ensures
            final(self).view() == pending_after(old(self).view(), events@, now),
            final(self).view().len() == 0 ==> r is None,
            final(self).view().len() > 0 ==> (r matches Some(p) && p.count == final(self).view().len()
                && strings_view(p.files@) == pending_paths(final(self).view())),
    {
        let mut i: usize = 0;
        assert(events@.take(0) =~= Seq::<WatchEvent>::empty());
        while i < events.len()
            invariant
                0 <= i <= events.len(),
                self.view() == pending_after(old(self).view(), events@.take(i as int), now),
            decreases events.len() - i,
        {
            assert(events@.take(i + 1).drop_last() =~= events@.take(i as int));
            assert(events@.take(i + 1).last() == events@[i as int]);
            let e = &events[i];
            if e.any_kind && !should_skip_file(e.path.as_str()) && e.is_file {
                let ghost set = self.view();
                let mut found = false;
                let mut j: usize = 0;
                while j < self.entries.len()
                    invariant
                        0 <= j <= self.entries.len(),
                        set == self.view(),
                        !found ==> forall|k: int| 0 <= k < j ==> !path_eq(set[k].path, e.path@),
                        found ==> holds_path(set, e.path@),
                    decreases self.entries.len() - j,
                {
                    if same_path(self.entries[j].path.as_str(), e.path.as_str()) {
                        assert(set[j as int] == self.entries@[j as int]@);
                        found = true;
                    }
                    j = j + 1;
                }
                if !found {
                    self.entries.push(PendingEntry { path: e.path.clone(), since: now, reminded: false });
                    assert(self.view() =~= set.push(
                        PendingEntryView { path: e.path@, since: now, reminded: false },
                    ));
                }
            }
            i = i + 1;
        }
        assert(events@.take(events.len() as int) =~= events@);
        if self.entries.len() > 0 {
            let files = self.paths();
            Some(PendingFiles { count: self.entries.len(), files })
        } else {
            None
        }
    }

    /// The files that have waited `after` milliseconds or more at `now` and of which the user
    /// was not yet reminded, in order; they count as reminded from then on.
    pub fn due_reminders(&mut self, now: u64, after: u64) -> (r: Vec<String>)
        ensures
            strings_view(r@) == due_paths(old(self).view(), now, after),
            final(self).view().len() == old(self).view().len(),
            forall|i: int|
                0 <= i < old(self).view().len() ==> #[trigger] final(self).view()[i]
                    == after_reminder(old(self).view()[i], now, after),
    {
        let ghost before = self.view();
        let mut r: Vec<String> = Vec::new();
        let mut next: Vec<PendingEntry> = Vec::new();
        let mut i: usize = 0;
        while i < self.entries.len()
            invariant
                0 <= i <= self.entries.len(),
                before == self.view(),
                next@.len() == i,
                forall|k: int|
                    0 <= k < i ==> #[trigger] next@[k]@ == after_reminder(before[k], now, after),
                strings_view(r@) == due_paths(before.take(i as int), now, after),
            decreases self.entries.len() - i,
        {
            let e = &self.entries[i];
            assert(before[i as int] == e@);
            assert(before.take(i + 1).drop_last() =~= before.take(i as int));
            assert(before.take(i + 1).last() == e@);
            let due = !e.reminded && now >= e.since && now - e.since >= after;
            if due {
                r.push(e.path.clone());
                assert(strings_view(r@) =~= due_paths(before.take(i + 1), now, after));
            }
            next.push(PendingEntry { path: e.path.clone(), since: e.since, reminded: e.reminded || due });
            i = i + 1;
        }
        assert(before.take(i as int) =~= before);
        self.entries = next;
        assert(self.view().len() == before.len());
        r
    }
}

/// The tray notification that asks the user to sync files left unuploaded.
#[derive(Debug)]
pub struct UploadReminder {
    pub title: String,
    pub body: String,
}

pub open spec fn reminder_title() -> Seq<char> {
    "업로드되지 않은 변경"@
}

pub open spec fn reminder_body(count: nat) -> Seq<char> {
    decimal(count) + "개 파일이 수정된 뒤 아직 업로드되지 않았습니다. Fabbit에 동기화하세요."@
}

/// The reminder for the files that came due, or none when no file did.
pub fn upload_reminder(due: &Vec<String>) -> (r: Option<UploadReminder>)
    ensures
        due@.len() == 0 ==> r is None,
        due@.len() > 0 ==> (r matches Some(n) && n.title@ == reminder_title() && n.body@
            == reminder_body(due@.len())),
{
    if due.len() == 0 {
        return None;
    }
    let mut body = decimal_string(due.len() as u64);
    body.append("개 파일이 수정된 뒤 아직 업로드되지 않았습니다. Fabbit에 동기화하세요.");
    Some(UploadReminder { title: "업로드되지 않은 변경".to_owned(), body })
}

/// Recording events keeps the pending set free of repeats and of hidden or temporary files.
pub proof fn lemma_pending_stays_wf(set: Seq<PendingEntryView>, events: Seq<WatchEvent>, now: u64)
    requires
        pending_wf(set),
    ensures
        pending_wf(pending_after(set, events, now)),
    decreases events.len(),
{
    if events.len() > 0 {
        lemma_pending_stays_wf(set, events.drop_last(), now);
        let before = pending_after(set, events.drop_last(), now);
        let e = events.last();
        if e.any_kind && !skip_spec(e.path@) && e.is_file && !holds_path(before, e.path@) {
            let after = before.push(PendingEntryView { path: e.path@, since: now, reminded: false });
            assert forall|i: int, j: int| 0 <= i < j < after.len() implies !path_eq(
                after[i].path,
                after[j].path,
            ) by {
                if j == before.len() {
                    assert(!path_eq(before[i].path, e.path@));
                }
            }
            assert forall|i: int| 0 <= i < after.len() implies !skip_spec(#[trigger] after[i].path) by {
                if i < before.len() {
                    assert(after[i] == before[i]);
                }
            }
        }
    }
}

/// A reminder round reminds each file at most once: an entry already reminded is never due
/// again, so a second round at the same or any later time leaves it out.
pub proof fn lemma_reminded_once(e: PendingEntryView, now: u64, later: u64, after: u64)
    requires
        reminder_due(e, now, after),
    ensures
        after_reminder(e, now, after).reminded,
        !reminder_due(after_reminder(e, now, after), later, after),
{
}

} // verus!
