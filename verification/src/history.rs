//! The run history: entries describing past batch runs, kept in memory under
//! a size bound. Persisting the history is the caller's concern; the merge
//! logic of an import lives here.

use vstd::prelude::*;

use vstd::multiset::Multiset;

use crate::error::AppError;
use crate::progress::ProcessingError;
use crate::progress::ProcessingResult;
use crate::progress::spec_percentage;
use crate::text::str_eq;

verus! {

/// Relies on `uuid::Uuid::new_v4` and its `Display` form: a fresh random
/// identifier in hyphenated form, which is always 36 characters. Nothing
/// else is assumed of the value; the call aborts only if the operating
/// system's randomness source fails, an environment failure of the same
/// kind as running out of memory.
#[verifier::external_body]
pub(crate) fn fresh_uuid_string() -> (r: String)
    ensures
        r@.len() == 36,
{
    uuid::Uuid::new_v4().to_string()
}

/// Relies on `chrono::Utc::now`: the seconds since the Unix epoch at the
/// moment of the call. Nothing is assumed of the value.
#[verifier::external_body]
pub(crate) fn utc_timestamp_seconds() -> (r: i64) {
    chrono::Utc::now().timestamp()
}

/// One remembered run: a fresh identifier, when it ran (seconds since the
/// Unix epoch), which processor over which directories, and its outcome.
#[derive(Debug, Clone)]
pub struct HistoryEntry {
    pub id: String,
    pub timestamp: i64,
    pub processor_id: String,
    pub processor_name: String,
    pub input_dir: String,
    pub output_dir: String,
    pub result: ProcessingResult,
}

/// Two entries agree in every observable field: identifier, time, processor,
/// directories, counters, failures and duration.
pub open spec fn entry_like(a: HistoryEntry, b: HistoryEntry) -> bool {
    &&& a.id@ == b.id@
    &&& a.timestamp == b.timestamp
    &&& a.processor_id@ == b.processor_id@
    &&& a.processor_name@ == b.processor_name@
    &&& a.input_dir@ == b.input_dir@
    &&& a.output_dir@ == b.output_dir@
    &&& a.result.total_files == b.result.total_files
    &&& a.result.successful == b.result.successful
    &&& a.result.failed == b.result.failed
    &&& a.result.errors@ == b.result.errors@
    &&& a.result.duration == b.result.duration
}

impl HistoryEntry {
    /// Builds an entry stamped with a fresh identifier and the current time.
    pub fn new(
        processor_id: String,
        processor_name: String,
        input_dir: String,
        output_dir: String,
        result: ProcessingResult,
    ) -> (e: HistoryEntry)
        ensures
            e.id@.len() == 36,
            e.processor_id == processor_id,
            e.processor_name == processor_name,
            e.input_dir == input_dir,
            e.output_dir == output_dir,
            e.result == result,
    {
        HistoryEntry {
            id: fresh_uuid_string(),
            timestamp: utc_timestamp_seconds(),
            processor_id,
            processor_name,
            input_dir,
            output_dir,
            result,
        }
    }

    /// Whether the remembered run had no failures.
    pub fn is_successful(&self) -> (r: bool)
        ensures
            r == (self.result.failed == 0),
    {
        self.result.failed == 0
    }

    /// The remembered run's success share, in hundredths of a percent.
    pub fn success_rate(&self) -> (r: u32)
        requires
            self.result.successful <= self.result.total_files,
        ensures
            r == spec_percentage(
                self.result.successful as int,
                self.result.total_files as int,
            ),
    {
        self.result.success_rate()
    }

    /// A copy agreeing with this entry in every observable field.
    #[verifier::loop_isolation(false)]
    pub fn duplicate(&self) -> (e: HistoryEntry)
        ensures
            entry_like(e, *self),
    {
        let n = self.result.errors.len();
        let mut errors: Vec<ProcessingError> = Vec::new();
        let mut i: usize = 0;
        while i < n
            invariant
                i <= n,
                errors@.len() == i,
                forall|k: int| 0 <= k < i ==> errors@[k] == self.result.errors@[k],
            decreases n - i,
        {
            let source = &self.result.errors[i];
            errors.push(
                ProcessingError {
                    file: source.file.clone(),
                    error_message: source.error_message.clone(),
                },
            );
            i += 1;
        }
        proof {
            assert(errors@ =~= self.result.errors@);
        }
        HistoryEntry {
            id: self.id.clone(),
            timestamp: self.timestamp,
            processor_id: self.processor_id.clone(),
            processor_name: self.processor_name.clone(),
            input_dir: self.input_dir.clone(),
            output_dir: self.output_dir.clone(),
            result: ProcessingResult {
                total_files: self.result.total_files,
                successful: self.result.successful,
                failed: self.result.failed,
                errors,
                duration: self.result.duration,
            },
        }
    }
}

/// The position of the first entry carrying the given identifier, if any.
pub open spec fn spec_first_with_id(entries: Seq<HistoryEntry>, id: Seq<char>) -> Option<int>
    decreases entries.len(),
{
    if entries.len() == 0 {
        None
    } else if entries[0].id@ == id {
        Some(0int)
    } else {
        match spec_first_with_id(entries.subrange(1, entries.len() as int), id) {
            Some(j) => Some(j + 1),
            None => None,
        }
    }
}

/// Some entry carries the given identifier.
pub open spec fn has_entry_id(entries: Seq<HistoryEntry>, id: Seq<char>) -> bool {
    exists|k: int| 0 <= k < entries.len() && (#[trigger] entries[k]).id@ == id
}

proof fn lemma_first_with_id_found(entries: Seq<HistoryEntry>, id: Seq<char>)
    requires
        spec_first_with_id(entries, id) is Some,
    ensures
        spec_first_with_id(entries, id) matches Some(j) ==> 0 <= j < entries.len()
            && entries[j].id@ == id,
    decreases entries.len(),
{
    if entries.len() > 0 && entries[0].id@ != id {
        let rest = entries.subrange(1, entries.len() as int);
        lemma_first_with_id_found(rest, id);
        match spec_first_with_id(entries, id) {
            Some(j) => {
                assert(spec_first_with_id(rest, id) == Some(j - 1));
                assert(entries[j] == rest[j - 1]);
            },
            None => {},
        }
    }
}

proof fn lemma_first_with_id_at(entries: Seq<HistoryEntry>, id: Seq<char>, i: int)
    requires
        0 <= i < entries.len(),
        forall|k: int| 0 <= k < i ==> (#[trigger] entries[k]).id@ != id,
        entries[i].id@ == id,
    ensures
        spec_first_with_id(entries, id) == Some(i),
    decreases i,
{
    if i > 0 {
        let rest = entries.subrange(1, entries.len() as int);
        assert(forall|k: int| 0 <= k < i - 1 ==> rest[k] == entries[k + 1]);
        lemma_first_with_id_at(rest, id, i - 1);
    }
}

proof fn lemma_first_with_id_none(entries: Seq<HistoryEntry>, id: Seq<char>)
    requires
        forall|k: int| 0 <= k < entries.len() ==> (#[trigger] entries[k]).id@ != id,
    ensures
        spec_first_with_id(entries, id) is None,
    decreases entries.len(),
{
    if entries.len() > 0 {
        let rest = entries.subrange(1, entries.len() as int);
        assert(forall|k: int| 0 <= k < rest.len() ==> rest[k] == entries[k + 1]);
        lemma_first_with_id_none(rest, id);
    }
}

/// The entry agrees, field for field, with one of `olds` or one of `imps`.
pub open spec fn from_old_or_imported(
    e: HistoryEntry,
    olds: Seq<HistoryEntry>,
    imps: Seq<HistoryEntry>,
) -> bool {
    (exists|j: int| 0 <= j < olds.len() && entry_like(e, #[trigger] olds[j])) || (exists|j: int|
        0 <= j < imps.len() && entry_like(e, #[trigger] imps[j]))
}

/// The entries are ordered by non-decreasing timestamp.
pub open spec fn entries_by_time(entries: Seq<HistoryEntry>) -> bool {
    forall|i: int, j: int|
        0 <= i < j < entries.len() ==> (#[trigger] entries[i]).timestamp
            <= (#[trigger] entries[j]).timestamp
}

/// The remembered runs, newest last, kept to at most `max_entries`; the
/// storage path only records where the caller persists them.
#[derive(Debug)]
pub struct HistoryManager {
    pub entries: Vec<HistoryEntry>,
    pub storage_path: String,
    pub max_entries: usize,
}

impl HistoryManager {
    /// Builds an empty history with the given bound and the default storage
    /// file name.
    pub fn new(max_entries: usize) -> (m: HistoryManager)
        ensures
            m.entries@.len() == 0,
            m.max_entries == max_entries,
            m.storage_path@ == "history.json"@,
    {
        HistoryManager {
            entries: Vec::new(),
            storage_path: "history.json".to_owned(),
            max_entries,
        }
    }

    /// Builds an empty history, under the older loader name; reading the
    /// storage file itself is the caller's concern.
    pub fn load(max_entries: usize) -> (r: Result<HistoryManager, AppError>)
        ensures
            r matches Ok(m) ==> m.entries@.len() == 0 && m.max_entries == max_entries,
            r is Ok,
    {
        Ok(HistoryManager::new(max_entries))
    }

    /// Builds a history over entries the caller restored from storage.
    pub fn restore(entries: Vec<HistoryEntry>, storage_path: String, max_entries: usize) -> (m:
        HistoryManager)
        ensures
            m.entries == entries,
            m.storage_path == storage_path,
            m.max_entries == max_entries,
    {
        HistoryManager { entries, storage_path, max_entries }
    }

    /// Appends an entry; when the history would exceed its bound, the oldest
    /// entries are dropped until it fits.
    #[verifier::loop_isolation(false)]
    pub fn add_entry(&mut self, entry: HistoryEntry) -> (r: Result<(), AppError>)
        ensures
            r is Ok,
            final(self).max_entries == old(self).max_entries,
            final(self).storage_path == old(self).storage_path,
            final(self).entries@ == ({
                let pushed = old(self).entries@.push(entry);
                if pushed.len() > old(self).max_entries {
                    pushed.subrange(
                        pushed.len() - old(self).max_entries,
                        pushed.len() as int,
                    )
                } else {
                    pushed
                }
            }),
    {
        self.entries.push(entry);
        let len = self.entries.len();
        if len > self.max_entries {
            let tail = self.entries.split_off(len - self.max_entries);
            self.entries = tail;
        }
        Ok(())
    }

    /// The remembered runs, oldest first.
    pub fn get_entries(&self) -> (r: &Vec<HistoryEntry>)
        ensures
            r@ == self.entries@,
    {
        &self.entries
    }

    /// The most recent `count` runs, newest first.
    #[verifier::loop_isolation(false)]
    pub fn get_recent_entries(&self, count: usize) -> (r: Vec<&HistoryEntry>)
        ensures
            r@.len() == (if count <= self.entries@.len() {
                count as int
            } else {
                self.entries@.len() as int
            }),
            forall|k: int|
                0 <= k < r@.len() ==> *(#[trigger] r@[k]) == self.entries@[self.entries@.len() - 1
                    - k],
    {
        let n = self.entries.len();
        let mut r: Vec<&HistoryEntry> = Vec::new();
        let mut i: usize = 0;
        while i < n && i < count
            invariant
                i <= n,
                n == self.entries@.len(),
                r@.len() == i,
                i <= count,
                forall|k: int| 0 <= k < i ==> *(#[trigger] r@[k]) == self.entries@[n - 1 - k],
            decreases n - i,
        {
            r.push(&self.entries[n - 1 - i]);
            i += 1;
        }
        r
    }

    /// The entry with the given identifier, if one exists; the first such
    /// entry when several share it.
    #[verifier::loop_isolation(false)]
    pub fn get_entry_by_id(&self, id: &str) -> (r: Option<&HistoryEntry>)
        ensures
            (r is Some) == (spec_first_with_id(self.entries@, id@) is Some),
            r matches Some(e) ==> spec_first_with_id(self.entries@, id@) matches Some(j) && *e
                == self.entries@[j],
    {
        let n = self.entries.len();
        let mut i: usize = 0;
        while i < n
            invariant
                i <= n,
                n == self.entries@.len(),
                forall|k: int| 0 <= k < i ==> (#[trigger] self.entries@[k]).id@ != id@,
            decreases n - i,
        {
            let entry = &self.entries[i];
            if str_eq(entry.id.as_str(), id) {
                proof {
                    lemma_first_with_id_at(self.entries@, id@, i as int);
                }
                return Some(entry);
            }
            i += 1;
        }
        proof {
            lemma_first_with_id_none(self.entries@, id@);
        }
        None
    }

    /// The runs of one processor, oldest first.
    #[verifier::loop_isolation(false)]
    pub fn get_entries_by_processor(&self, processor_id: &str) -> (r: Vec<&HistoryEntry>)
        ensures
            r@.map_values(|e: &HistoryEntry| *e) == self.entries@.filter(
                |e: HistoryEntry| e.processor_id@ == processor_id@,
            ),
    {
        let n = self.entries.len();
        let mut r: Vec<&HistoryEntry> = Vec::new();
        let mut i: usize = 0;
        proof {
            assert(r@.map_values(|e: &HistoryEntry| *e) =~= self.entries@.subrange(0, 0).filter(
                |e: HistoryEntry| e.processor_id@ == processor_id@,
            ));
        }
        while i < n
            invariant
                i <= n,
                n == self.entries@.len(),
                r@.map_values(|e: &HistoryEntry| *e) == self.entries@.subrange(0, i as int).filter(
                    |e: HistoryEntry| e.processor_id@ == processor_id@,
                ),
            decreases n - i,
        {
            let ghost pre = self.entries@.subrange(0, i as int);
            let ghost post = self.entries@.subrange(0, i as int + 1);
            proof {
                assert(post.drop_last() =~= pre);
                assert(post.last() == self.entries@[i as int]);
                reveal_with_fuel(Seq::filter, 2);
            }
            let ghost old_r = r@;
            let entry = &self.entries[i];
            if str_eq(entry.processor_id.as_str(), processor_id) {
                r.push(entry);
                proof {
                    assert(r@.map_values(|e: &HistoryEntry| *e) =~= old_r.map_values(
                        |e: &HistoryEntry| *e,
                    ).push(self.entries@[i as int]));
                }
            }
            i += 1;
        }
        proof {
            assert(self.entries@.subrange(0, n as int) =~= self.entries@);
        }
        r
    }

    /// The runs that had no failures, oldest first.
    #[verifier::loop_isolation(false)]
    pub fn get_successful_entries(&self) -> (r: Vec<&HistoryEntry>)
        ensures
            r@.map_values(|e: &HistoryEntry| *e) == self.entries@.filter(
                |e: HistoryEntry| e.result.failed == 0,
            ),
    {
        let n = self.entries.len();
        let mut r: Vec<&HistoryEntry> = Vec::new();
        let mut i: usize = 0;
        proof {
            assert(r@.map_values(|e: &HistoryEntry| *e) =~= self.entries@.subrange(0, 0).filter(
                |e: HistoryEntry| e.result.failed == 0,
            ));
        }
        while i < n
            invariant
                i <= n,
                n == self.entries@.len(),
                r@.map_values(|e: &HistoryEntry| *e) == self.entries@.subrange(0, i as int).filter(
                    |e: HistoryEntry| e.result.failed == 0,
                ),
            decreases n - i,
        {
            let ghost pre = self.entries@.subrange(0, i as int);
            let ghost post = self.entries@.subrange(0, i as int + 1);
            proof {
                assert(post.drop_last() =~= pre);
                assert(post.last() == self.entries@[i as int]);
                reveal_with_fuel(Seq::filter, 2);
            }
            let ghost old_r = r@;
            let entry = &self.entries[i];
            if entry.result.failed == 0 {
                r.push(entry);
                proof {
                    assert(r@.map_values(|e: &HistoryEntry| *e) =~= old_r.map_values(
                        |e: &HistoryEntry| *e,
                    ).push(self.entries@[i as int]));
                }
            }
            i += 1;
        }
        proof {
            assert(self.entries@.subrange(0, n as int) =~= self.entries@);
        }
        r
    }

    /// The runs that had failures, oldest first.
    #[verifier::loop_isolation(false)]
    pub fn get_failed_entries(&self) -> (r: Vec<&HistoryEntry>)
        ensures
            r@.map_values(|e: &HistoryEntry| *e) == self.entries@.filter(
                |e: HistoryEntry| e.result.failed != 0,
            ),
    {
        let n = self.entries.len();
        let mut r: Vec<&HistoryEntry> = Vec::new();
        let mut i: usize = 0;
        proof {
            assert(r@.map_values(|e: &HistoryEntry| *e) =~= self.entries@.subrange(0, 0).filter(
                |e: HistoryEntry| e.result.failed != 0,
            ));
        }
        while i < n
            invariant
                i <= n,
                n == self.entries@.len(),
                r@.map_values(|e: &HistoryEntry| *e) == self.entries@.subrange(0, i as int).filter(
                    |e: HistoryEntry| e.result.failed != 0,
                ),
            decreases n - i,
        {
            let ghost pre = self.entries@.subrange(0, i as int);
            let ghost post = self.entries@.subrange(0, i as int + 1);
            proof {
                assert(post.drop_last() =~= pre);
                assert(post.last() == self.entries@[i as int]);
                reveal_with_fuel(Seq::filter, 2);
            }
            let ghost old_r = r@;
            let entry = &self.entries[i];
            if entry.result.failed != 0 {
                r.push(entry);
                proof {
                    assert(r@.map_values(|e: &HistoryEntry| *e) =~= old_r.map_values(
                        |e: &HistoryEntry| *e,
                    ).push(self.entries@[i as int]));
                }
            }
            i += 1;
        }
        proof {
            assert(self.entries@.subrange(0, n as int) =~= self.entries@);
        }
        r
    }

    /// Forgets every remembered run.
    pub fn clear_history(&mut self) -> (r: Result<(), AppError>)
        ensures
            r is Ok,
            final(self).entries@.len() == 0,
            final(self).max_entries == old(self).max_entries,
            final(self).storage_path == old(self).storage_path,
    {
        self.entries.clear();
        Ok(())
    }

    /// Removes the first entry with the given identifier; an unknown
    /// identifier is rejected with a history error.
    #[verifier::loop_isolation(false)]
    pub fn remove_entry(&mut self, id: &str) -> (r: Result<(), AppError>)
        ensures
            (r is Ok) == (spec_first_with_id(old(self).entries@, id@) is Some),
            r is Ok ==> (spec_first_with_id(old(self).entries@, id@) matches Some(j)
                && final(self).entries@ == old(self).entries@.remove(j)),
            r is Err ==> *final(self) == *old(self) && (r matches Err(e) ==> e is HistoryError),
            final(self).max_entries == old(self).max_entries,
            final(self).storage_path == old(self).storage_path,
    {
        let n = self.entries.len();
        let mut i: usize = 0;
        while i < n
            invariant
                i <= n,
                n == self.entries@.len(),
                *self == *old(self),
                forall|k: int| 0 <= k < i ==> (#[trigger] self.entries@[k]).id@ != id@,
            decreases n - i,
        {
            if str_eq(self.entries[i].id.as_str(), id) {
                proof {
                    lemma_first_with_id_at(self.entries@, id@, i as int);
                }
                self.entries.remove(i);
                return Ok(());
            }
            i += 1;
        }
        proof {
            lemma_first_with_id_none(self.entries@, id@);
        }
        let mut message = "历史记录不存在: ".to_owned();
        message.append(id);
        Err(AppError::HistoryError(message))
    }

    /// Keeps only the most recent `count` runs, dropping the oldest.
    #[verifier::loop_isolation(false)]
    pub fn trim_to(&mut self, count: usize) -> (r: Result<(), AppError>)
        ensures
            r is Ok,
            final(self).max_entries == old(self).max_entries,
            final(self).storage_path == old(self).storage_path,
            final(self).entries@ == (if old(self).entries@.len() > count {
                old(self).entries@.subrange(
                    old(self).entries@.len() - count,
                    old(self).entries@.len() as int,
                )
            } else {
                old(self).entries@
            }),
    {
        let len = self.entries.len();
        if len > count {
            let tail = self.entries.split_off(len - count);
            self.entries = tail;
        }
        Ok(())
    }

    /// How many runs are remembered.
    pub fn entry_count(&self) -> (n: usize)
        ensures
            n == self.entries@.len(),
    {
        self.entries.len()
    }

    /// The history's size bound.
    pub fn max_entries(&self) -> (n: usize)
        ensures
            n == self.max_entries,
    {
        self.max_entries
    }

    /// Changes the size bound and trims to it.
    pub fn set_max_entries(&mut self, max_entries: usize) -> (r: Result<(), AppError>)
        ensures
            r is Ok,
            final(self).max_entries == max_entries,
            final(self).storage_path == old(self).storage_path,
            final(self).entries@ == (if old(self).entries@.len() > max_entries {
                old(self).entries@.subrange(
                    old(self).entries@.len() - max_entries,
                    old(self).entries@.len() as int,
                )
            } else {
                old(self).entries@
            }),
    {
        self.max_entries = max_entries;
        self.trim_to(max_entries)
    }

    /// The path the history is persisted at.
    pub fn storage_path(&self) -> (r: &String)
        ensures
            *r == self.storage_path,
    {
        &self.storage_path
    }

    /// Merges entries the caller imported from a file: entries whose
    /// identifier is already present are skipped, the rest are appended,
    /// everything is ordered by timestamp, and the history is trimmed to its
    /// bound. Each resulting entry agrees, field for field, with one of the
    /// old or imported entries.
    #[verifier::loop_isolation(false)]
    pub fn import_entries(&mut self, imported: Vec<HistoryEntry>) -> (r: Result<(), AppError>)
        ensures
            r is Ok,
            final(self).max_entries == old(self).max_entries,
            final(self).storage_path == old(self).storage_path,
            entries_by_time(final(self).entries@),
            final(self).entries@.len() <= old(self).max_entries || final(self).entries@.len()
                <= old(self).entries@.len() + imported@.len(),
            forall|k: int|
                0 <= k < final(self).entries@.len() ==> from_old_or_imported(
                    #[trigger] final(self).entries@[k],
                    old(self).entries@,
                    imported@,
                ),
            old(self).entries@.len() + imported@.len() <= old(self).max_entries ==> forall|j: int|
                0 <= j < imported@.len() ==> has_entry_id(
                    final(self).entries@,
                    (#[trigger] imported@[j]).id@,
                ),
    {
        let ghost entries0 = self.entries@;
        proof {
            assert forall|k: int|
                0 <= k < self.entries@.len() implies from_old_or_imported(
                #[trigger] self.entries@[k],
                entries0,
                imported@,
            ) by {
                assert(entry_like(self.entries@[k], entries0[k]));
            }
        }
        let n_imported = imported.len();
        let mut i: usize = 0;
        while i < n_imported
            invariant
                i <= n_imported,
                n_imported == imported@.len(),
                self.max_entries == old(self).max_entries,
                self.storage_path == old(self).storage_path,
                self.entries@.len() <= entries0.len() + i,
                forall|k: int|
                    0 <= k < self.entries@.len() ==> from_old_or_imported(
                        #[trigger] self.entries@[k],
                        entries0,
                        imported@,
                    ),
                forall|j: int|
                    0 <= j < i ==> has_entry_id(self.entries@, (#[trigger] imported@[j]).id@),
            decreases n_imported - i,
        {
            let ghost before = self.entries@;
            let candidate = &imported[i];
            let already = match self.get_entry_by_id(candidate.id.as_str()) {
                Some(_) => true,
                None => false,
            };
            if !already {
                let copy = candidate.duplicate();
                proof {
                    assert(entry_like(copy, imported@[i as int]));
                }
                self.entries.push(copy);
                proof {
                    assert(forall|k: int|
                        0 <= k < before.len() ==> self.entries@[k] == before[k]);
                    assert(entry_like(
                        self.entries@[self.entries@.len() - 1],
                        imported@[i as int],
                    ));
                }
            }
            proof {
                assert forall|j: int|
                    0 <= j < i + 1 implies has_entry_id(
                    self.entries@,
                    (#[trigger] imported@[j]).id@,
                ) by {
                    if j < i {
                        let k0 = choose|k0: int|
                            0 <= k0 < before.len() && (#[trigger] before[k0]).id@
                                == imported@[j].id@;
                        assert(self.entries@[k0].id@ == imported@[j].id@);
                    } else {
                        if already {
                            lemma_first_with_id_found(before, imported@[j].id@);
                            match spec_first_with_id(before, imported@[j].id@) {
                                Some(k0) => {
                                    assert(self.entries@[k0].id@ == imported@[j].id@);
                                },
                                None => {},
                            }
                        } else {
                            assert(self.entries@[self.entries@.len() - 1].id@
                                == imported@[j].id@);
                        }
                    }
                }
            }
            i += 1;
        }
        let ghost merged = self.entries@;
        self.sort_entries_by_time();
        proof {
            broadcast use vstd::seq_lib::group_to_multiset_ensures;

            assert forall|k: int|
                0 <= k < self.entries@.len() implies from_old_or_imported(
                #[trigger] self.entries@[k],
                entries0,
                imported@,
            ) by {
                assert(self.entries@.contains(self.entries@[k]));
                assert(self.entries@.to_multiset().count(self.entries@[k]) > 0);
                assert(merged.to_multiset().count(self.entries@[k]) > 0);
                assert(merged.contains(self.entries@[k]));
                let j0 = choose|j0: int| 0 <= j0 < merged.len() && merged[j0] == self.entries@[k];
                assert(merged[j0] == self.entries@[k]);
            }
            assert(self.entries@.len() == merged.len()) by {
                assert(self.entries@.to_multiset().len() == merged.to_multiset().len());
            }
        }
        proof {
            broadcast use vstd::seq_lib::group_to_multiset_ensures;

            assert forall|j: int|
                0 <= j < imported@.len() implies has_entry_id(
                self.entries@,
                (#[trigger] imported@[j]).id@,
            ) by {
                let k0 = choose|k0: int|
                    0 <= k0 < merged.len() && (#[trigger] merged[k0]).id@ == imported@[j].id@;
                let witness = merged[k0];
                assert(merged.contains(witness));
                assert(merged.to_multiset().count(witness) > 0);
                assert(self.entries@.to_multiset().count(witness) > 0);
                assert(self.entries@.contains(witness));
                let k1 = choose|k1: int|
                    0 <= k1 < self.entries@.len() && self.entries@[k1] == witness;
                assert(self.entries@[k1].id@ == imported@[j].id@);
            }
        }
        let ghost sorted_entries = self.entries@;
        let bound = self.max_entries;
        let check = self.trim_to(bound);
        proof {
            assert(check is Ok);
            if entries0.len() + imported@.len() <= old(self).max_entries {
                assert(sorted_entries.len() <= bound);
                assert(self.entries@ == sorted_entries);
            }
            if sorted_entries.len() > bound {
                assert forall|k: int|
                    0 <= k < self.entries@.len() implies from_old_or_imported(
                    #[trigger] self.entries@[k],
                    entries0,
                    imported@,
                ) by {
                    assert(self.entries@[k] == sorted_entries[sorted_entries.len() - bound + k]);
                }
            }
        }
        Ok(())
    }

    /// Orders the remembered runs by non-decreasing timestamp, keeping
    /// exactly the same entries.
    #[verifier::loop_isolation(false)]
    fn sort_entries_by_time(&mut self)
        ensures
            final(self).max_entries == old(self).max_entries,
            final(self).storage_path == old(self).storage_path,
            entries_by_time(final(self).entries@),
            final(self).entries@.to_multiset() == old(self).entries@.to_multiset(),
    {
        broadcast use vstd::seq_lib::group_to_multiset_ensures, vstd::multiset::group_multiset_axioms;

        let ghost orig = self.entries@;
        let mut remaining: Vec<HistoryEntry> = Vec::new();
        core::mem::swap(&mut remaining, &mut self.entries);
        proof {
            assert(self.entries@ =~= Seq::<HistoryEntry>::empty());
            assert(self.entries@.to_multiset().add(remaining@.to_multiset())
                =~= orig.to_multiset());
        }
        while remaining.len() > 0
            invariant
                entries_by_time(self.entries@),
                forall|i: int, j: int|
                    0 <= i < self.entries@.len() && 0 <= j < remaining@.len() ==> (
                    #[trigger] self.entries@[i]).timestamp <= (#[trigger] remaining@[j]).timestamp,
                self.entries@.to_multiset().add(remaining@.to_multiset()) == orig.to_multiset(),
                self.max_entries == old(self).max_entries,
                self.storage_path == old(self).storage_path,
            decreases remaining@.len(),
        {
            let len = remaining.len();
            let mut m: usize = 0;
            let mut j: usize = 1;
            while j < len
                invariant
                    m < j <= len,
                    len == remaining@.len(),
                    forall|k: int|
                        0 <= k < j ==> remaining@[m as int].timestamp <= (
                        #[trigger] remaining@[k]).timestamp,
                decreases len - j,
            {
                if remaining[j].timestamp < remaining[m].timestamp {
                    m = j;
                }
                j += 1;
            }
            let ghost rem0 = remaining@;
            let ghost out0 = self.entries@;
            let value = remaining.remove(m);
            proof {
                assert(rem0[m as int] == value);
                assert(rem0.remove(m as int).to_multiset() =~= rem0.to_multiset().remove(value));
                assert(rem0.contains(value)) by {
                    assert(rem0[m as int] == value);
                }
                assert(rem0.to_multiset().count(value) > 0);
            }
            self.entries.push(value);
            proof {
                assert(self.entries@ =~= out0.push(value));
                assert(self.entries@.to_multiset() =~= out0.to_multiset().insert(value));
                assert(self.entries@.to_multiset().add(remaining@.to_multiset())
                    =~= orig.to_multiset()) by {
                    assert forall|x: HistoryEntry|
                        self.entries@.to_multiset().add(remaining@.to_multiset()).count(x)
                            == orig.to_multiset().count(x) by {
                        assert(self.entries@.to_multiset().count(x) == out0.to_multiset().count(x)
                            + (if x == value {
                            1int
                        } else {
                            0int
                        }));
                        assert(remaining@.to_multiset().count(x) == rem0.to_multiset().count(x) - (
                        if x == value {
                            1int
                        } else {
                            0int
                        }));
                    }
                }
                assert(self.entries@[self.entries@.len() - 1] == value);
                assert forall|i: int, j2: int|
                    0 <= i < self.entries@.len() && 0 <= j2 < remaining@.len() implies (
                #[trigger] self.entries@[i]).timestamp <= (#[trigger] remaining@[j2]).timestamp by {
                    let jj = if j2 < m {
                        j2
                    } else {
                        j2 + 1
                    };
                    assert(remaining@[j2] == rem0[jj]);
                    if i < self.entries@.len() - 1 {
                        assert(self.entries@[i] == out0[i]);
                    } else {
                        assert(self.entries@[i] == rem0[m as int]);
                    }
                }
                assert forall|i: int, j2: int|
                    0 <= i < j2 < self.entries@.len() implies (
                #[trigger] self.entries@[i]).timestamp <= (
                #[trigger] self.entries@[j2]).timestamp by {
                    if j2 == self.entries@.len() - 1 {
                        assert(self.entries@[i] == out0[i]);
                        assert(self.entries@[j2] == rem0[m as int]);
                    }
                }
            }
        }
        proof {
            assert(remaining@.to_multiset() =~= Multiset::<HistoryEntry>::empty());
            assert(self.entries@.to_multiset().add(remaining@.to_multiset())
                =~= self.entries@.to_multiset());
        }
    }
}

} // verus!
