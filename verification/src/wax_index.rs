//! The Wax index is where temporary commands are tracked for use with the `wax`
//! command.

use vstd::prelude::*;
use vstd::string::StringExecFns;
use crate::assoc::{
    key_index, keys_unique, lemma_key_index, lemma_remove_lookup, lemma_upsert_lookup, lookup,
    remove_key, upsert,
};
use crate::config::{join_path, spec_join};
use crate::lockfile::{opt_version_view, semver_parse, version_text, Version, VersionModel};
use crate::text::{spec_split, split_on};

verus! {

/// An entry of the index.
#[derive(Debug, Clone, PartialEq, Eq)]
pub struct WaxEntry {
    /// Fully qualified package name `namespace/name@version`
    pub package_name: String,
    /// Timestamp when wax was last updated
    pub last_updated: String,
}

pub struct WaxEntryModel {
    pub package_name: Seq<char>,
    pub last_updated: Seq<char>,
}

impl View for WaxEntry {
    type V = WaxEntryModel;

    open spec fn view(&self) -> WaxEntryModel {
        WaxEntryModel { package_name: self.package_name@, last_updated: self.last_updated@ }
    }
}

impl WaxEntry {
    /// The entry for a package `name` at `version`, updated at `time`.
    pub fn new(name: String, version: &Version, time: String) -> (res: WaxEntry)
        ensures
            res@ == (WaxEntryModel {
                package_name: name@ + seq!['@'] + version_text(version@),
                last_updated: time@,
            }),
    {
        proof {
            reveal_strlit("@");
        }
        let package_name = name.concat("@").concat(version.to_string().as_str());
        assert(package_name@ =~= name@ + seq!['@'] + version_text(version@));
        WaxEntry { package_name, last_updated: time }
    }
}

/// The format of the index's timestamps.
pub const RFC3339_FORMAT_STRING: &'static str = "%Y-%m-%dT%H:%M:%S-%f";

/// What `time::strptime` with the index's timestamp format, then
/// `Tm::to_timespec`, make of a text: seconds and nanoseconds since the
/// epoch, or the message of the parse error.
pub uninterp spec fn timestamp_parse(text: Seq<char>) -> Result<(i64, i32), Seq<char>>;

/// How `time::strftime` writes, in the index's timestamp format, the UTC time
/// at these seconds and nanoseconds since the epoch.
pub uninterp spec fn timestamp_text(sec: i64, nsec: i32) -> Seq<char>;

/// The time of a timestamp of the index, by its view.
pub open spec fn parsed_view(r: Result<(i64, i32), String>) -> Result<(i64, i32), Seq<char>> {
    match r {
        Ok(t) => Ok(t),
        Err(m) => Err(m@),
    }
}

/// Reads a timestamp with `time::strptime` and converts it with
/// `Tm::to_timespec`. Claimed: the outcome, message included, depends on the
/// text alone.
#[verifier::external_body]
fn parse_timestamp(text: &str) -> (res: Result<(i64, i32), String>)
    ensures
        parsed_view(res) == timestamp_parse(text@),
{
    match time::strptime(text, RFC3339_FORMAT_STRING) {
        Ok(tm) => {
            let t = tm.to_timespec();
            Ok((t.sec, t.nsec))
        },
        Err(e) => Err(e.to_string()),
    }
}

/// Writes a UTC time with `time::at_utc` and `time::strftime`. The
/// nanoseconds must be less than a second (`Timespec::new` asserts it) and
/// the year must fit the platform's calendar conversion, which the bound on
/// the seconds keeps. Claimed: the text depends on the time alone.
#[verifier::external_body]
fn format_timestamp(sec: i64, nsec: i32) -> (res: String)
    requires
        0 <= nsec < 1_000_000_000,
        -36028797018963968 <= sec <= 36028797018963968,
    ensures
        res@ == timestamp_text(sec, nsec),
{
    time::strftime(RFC3339_FORMAT_STRING, &time::at_utc(time::Timespec::new(sec, nsec))).unwrap_or_default()
}

/// A time that the index can write: nanoseconds less than a second, and
/// seconds within the calendar's reach.
pub open spec fn writable_time(sec: i64, nsec: i32) -> bool {
    0 <= nsec < 1_000_000_000 && -36028797018963968 <= sec <= 36028797018963968
}

/// Entries put in turn onto an index's entries.
pub open spec fn upsert_all(
    acc: Seq<(Seq<char>, WaxEntryModel)>,
    v: Seq<(Seq<char>, WaxEntryModel)>,
) -> Seq<(Seq<char>, WaxEntryModel)>
    decreases v.len(),
{
    if v.len() == 0 {
        acc
    } else {
        upsert(upsert_all(acc, v.drop_last()), v.last().0, v.last().1)
    }
}

pub open spec fn entries_view(v: Seq<(String, WaxEntry)>) -> Seq<(Seq<char>, WaxEntryModel)> {
    v.map_values(|e: (String, WaxEntry)| (e.0@, e.1@))
}

/// Why the index could not answer.
#[derive(Debug, Clone, PartialEq, Eq)]
pub enum WaxIndexError {
    ConfigError(String),
    IoError(String),
    SerdeError(String),
    EntryNotFound { entry: String },
    EntryCorrupt { entry: String },
}

/// The index: where packages are installed, and an entry per command.
#[derive(Debug, Clone, PartialEq, Eq)]
pub struct WaxIndex {
    base_dir: String,
    index: Vec<(String, WaxEntry)>,
}

impl WaxIndex {
    /// No command has two entries.
    pub closed spec fn wf(&self) -> bool {
        keys_unique(entries_view(self.index@))
    }

    /// The entries by command, one per command.
    pub closed spec fn entries(&self) -> Seq<(Seq<char>, WaxEntryModel)> {
        entries_view(self.index@)
    }

    pub closed spec fn base(&self) -> Seq<char> {
        self.base_dir@
    }

    /// An index with no entries.
    pub fn new(base_dir: String) -> (res: WaxIndex)
        ensures
            res.wf(),
            res.base() == base_dir@,
            res.entries() == Seq::<(Seq<char>, WaxEntryModel)>::empty(),
    {
        let res = WaxIndex { base_dir, index: Vec::new() };
        assert(res.entries() =~= Seq::<(Seq<char>, WaxEntryModel)>::empty());
        res
    }

    /// Get path at which packages should be installed.
    pub fn base_path(&self) -> (res: &String)
        ensures
            res@ == self.base(),
    {
        &self.base_dir
    }

    fn find(&self, entry: &str) -> (res: Option<usize>)
        ensures
            res is None ==> key_index(self.entries(), entry@) == -1,
            res matches Some(i) ==> key_index(self.entries(), entry@) == i && i < self.index@.len(),
    {
        let ghost v = self.entries();
        let key = String::from_str(entry);
        proof {
            lemma_key_index(v, entry@);
        }
        for i in 0..self.index.len()
            invariant
                v == entries_view(self.index@),
                key@ == entry@,
                forall|j: int| 0 <= j < i ==> v[j].0 != entry@,
        {
            assert(v[i as int] == (self.index@[i as int].0@, self.index@[i as int].1@));
            if self.index[i].0 == key {
                proof {
                    lemma_key_index(v, entry@);
                }
                return Some(i);
            }
        }
        proof {
            lemma_key_index(v, entry@);
        }
        None
    }

    /// Package installed, add it to the index, updated now (seconds and
    /// nanoseconds since the epoch).
    ///
    /// Returns true if an existing entry was updated.
    pub fn insert_entry(
        &mut self,
        entry: String,
        version: Version,
        package_name: String,
        now_sec: i64,
        now_nsec: i32,
    ) -> (res: bool)
        requires
            old(self).wf(),
            writable_time(now_sec, now_nsec),
        ensures
            final(self).wf(),
            res == (lookup(old(self).entries(), entry@) is Some),
            final(self).base() == old(self).base(),
            final(self).entries() == upsert(
                old(self).entries(),
                entry@,
                WaxEntryModel {
                    package_name: package_name@ + seq!['@'] + version_text(version@),
                    last_updated: timestamp_text(now_sec, now_nsec),
                },
            ),
    {
        let now = format_timestamp(now_sec, now_nsec);
        let e = WaxEntry::new(package_name, &version, now);
        let ghost before = self.entries();
        proof {
            lemma_upsert_lookup(before, entry@, e@, entry@);
            lemma_key_index(before, entry@);
        }
        self.put(entry, e)
    }

    /// Puts an entry under a command, in place of the command's entry if it
    /// has one; tells whether it had one.
    fn put(&mut self, entry: String, e: WaxEntry) -> (res: bool)
        requires
            old(self).wf(),
        ensures
            final(self).wf(),
            res == (lookup(old(self).entries(), entry@) is Some),
            final(self).base() == old(self).base(),
            final(self).entries() == upsert(old(self).entries(), entry@, e@),
    {
        let ghost before = self.entries();
        proof {
            lemma_upsert_lookup(before, entry@, e@, entry@);
            lemma_key_index(before, entry@);
        }
        match self.find(entry.as_str()) {
            Some(i) => {
                self.index[i] = (entry, e);
                assert(self.entries() =~= before.update(i as int, (entry@, e@)));
                true
            },
            None => {
                self.index.push((entry, e));
                assert(self.entries() =~= before.push((entry@, e@)));
                false
            },
        }
    }

    /// An index of these entries; a command given twice keeps its last entry.
    pub fn from_entries(base_dir: String, entries: &Vec<(String, WaxEntry)>) -> (res: WaxIndex)
        ensures
            res.wf(),
            res.base() == base_dir@,
            res.entries() == upsert_all(seq![], entries_view(entries@)),
    {
        let mut res = WaxIndex::new(base_dir);
        let ghost ev = entries_view(entries@);
        assert(ev.take(0) =~= Seq::<(Seq<char>, WaxEntryModel)>::empty());
        for i in 0..entries.len()
            invariant
                res.wf(),
                res.base() == base_dir@,
                ev == entries_view(entries@),
                res.entries() == upsert_all(seq![], ev.take(i as int)),
        {
            let k = entries[i].0.clone();
            let e = WaxEntry {
                package_name: entries[i].1.package_name.clone(),
                last_updated: entries[i].1.last_updated.clone(),
            };
            assert(ev.take(i + 1).drop_last() =~= ev.take(i as int));
            assert(ev.take(i + 1).last() == (k@, e@));
            res.put(k, e);
        }
        assert(ev.take(entries.len() as int) =~= ev);
        res
    }

    /// The entries, each under its command.
    pub fn entries_list(&self) -> (res: Vec<(String, WaxEntry)>)
        ensures
            entries_view(res@) == self.entries(),
    {
        let mut out: Vec<(String, WaxEntry)> = Vec::new();
        for i in 0..self.index.len()
            invariant
                out@.len() == i,
                entries_view(out@) == entries_view(self.index@).take(i as int),
        {
            let e = WaxEntry {
                package_name: self.index[i].1.package_name.clone(),
                last_updated: self.index[i].1.last_updated.clone(),
            };
            let k = self.index[i].0.clone();
            let ghost item = (k@, e@);
            assert(item == (self.index@[i as int].0@, self.index@[i as int].1@));
            let ghost before = out@;
            out.push((k, e));
            assert(out@ == before.push(out@[i as int]));
            assert(entries_view(out@) =~= entries_view(before).push(item));
            assert(entries_view(out@) =~= entries_view(self.index@).take(i + 1));
        }
        assert(entries_view(self.index@).take(self.index.len() as int) =~= entries_view(self.index@));
        out
    }

    /// Where the package of an entry is installed, if there is an entry.
    pub fn entry_location(&self, entry: &str) -> (res: Option<String>)
        ensures
            match lookup(self.entries(), entry@) {
                Some(e) => res matches Some(l) && l@ == spec_join(self.base(), e.package_name),
                None => res is None,
            },
    {
        match self.find(entry) {
            Some(i) => {
                assert(self.entries()[i as int].1 == self.index@[i as int].1@);
                Some(join_path(self.base_dir.as_str(), self.index[i].1.package_name.as_str()))
            },
            None => None,
        }
    }

    /// Looks an entry up, given whether its installed package still exists:
    /// the package name and version it names (`name@version`), and when it
    /// was last updated (seconds and nanoseconds since the epoch). An entry
    /// whose package is gone is taken out of the index.
    pub fn search_for_entry(&mut self, entry: String, location_exists: bool) -> (res: Result<
        (String, Version, (i64, i32)),
        WaxIndexError,
    >)
        requires
            old(self).wf(),
        ensures
            final(self).wf(),
            final(self).base() == old(self).base(),
            match lookup(old(self).entries(), entry@) {
                None => final(self).entries() == old(self).entries() && (res matches Err(
                    WaxIndexError::EntryNotFound { entry: x },
                ) && x@ == entry@),
                Some(e) => if !location_exists {
                    final(self).entries() == remove_key(old(self).entries(), entry@) && lookup(
                        final(self).entries(),
                        entry@,
                    ) is None && (res matches Err(WaxIndexError::EntryNotFound { entry: x }) && x@
                        == entry@)
                } else {
                    let parts = spec_split(e.package_name, '@');
                    final(self).entries() == old(self).entries() && if parts.len() < 2 {
                        res matches Err(WaxIndexError::EntryCorrupt { entry: x }) && x@ == entry@
                    } else {
                        match semver_parse(parts[1]) {
                            Some(v) => match timestamp_parse(e.last_updated) {
                                Ok(t) => res matches Ok((n, ver, ts)) && n@ == parts[0] && ver@ == v
                                    && ts == t,
                                Err(m) => res matches Err(WaxIndexError::EntryCorrupt { entry: x })
                                    && x@ == m,
                            },
                            None => res matches Err(WaxIndexError::EntryCorrupt { entry: x }) && x@
                                == entry@,
                        }
                    }
                },
            },
    {
        match self.find(entry.as_str()) {
            None => Err(WaxIndexError::EntryNotFound { entry }),
            Some(i) => {
                assert(self.entries()[i as int].1 == self.index@[i as int].1@);
                if !location_exists {
                    let ghost before = self.entries();
                    proof {
                        lemma_remove_lookup(before, entry@, entry@);
                    }
                    self.index.remove(i);
                    assert(self.entries() =~= before.remove(i as int));
                    return Err(WaxIndexError::EntryNotFound { entry });
                }
                let parts = split_on(self.index[i].1.package_name.as_str(), '@');
                assert(parts@.map_values(|p: String| p@).len() == parts@.len());
                if parts.len() < 2 {
                    Err(WaxIndexError::EntryCorrupt { entry })
                } else {
                    assert(parts@[0]@ == spec_split(self.index@[i as int].1.package_name@, '@')[0]);
                    assert(parts@[1]@ == spec_split(self.index@[i as int].1.package_name@, '@')[1]);
                    match Version::parse(parts[1].as_str()) {
                        Some(v) => match parse_timestamp(self.index[i].1.last_updated.as_str()) {
                            Ok(t) => Ok((parts[0].clone(), v, t)),
                            Err(m) => Err(WaxIndexError::EntryCorrupt { entry: m }),
                        },
                        None => Err(WaxIndexError::EntryCorrupt { entry }),
                    }
                }
            },
        }
    }
}


/// After a package is recorded for a command, the command's entry is the new
/// one, every other command keeps its entry, and no command has two.
pub proof fn law_recorded_entry_read_back(
    m: Seq<(Seq<char>, WaxEntryModel)>,
    command: Seq<char>,
    e: WaxEntryModel,
    other: Seq<char>,
)
    requires
        keys_unique(m),
    ensures
        lookup(upsert(m, command, e), command) == Some(e),
        other != command ==> lookup(upsert(m, command, e), other) == lookup(m, other),
        keys_unique(upsert(m, command, e)),
{
    lemma_upsert_lookup(m, command, e, command);
    lemma_upsert_lookup(m, command, e, other);
}

} // verus!
