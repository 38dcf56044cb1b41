//! The watch orchestrator's decision logic: classifying files, planning the
//! work of a settled batch of filesystem events, and the per-file status
//! table.

use vstd::prelude::*;
use vstd::string::StringSliceAdditionalSpecFns;

use crate::text::{append_all, append_decimal, bytes_eq, ends_with, is_suffix};

verus! {

/// The kind of a tracked file.
#[derive(Debug, Clone, Copy, PartialEq, Eq, Structural)]
pub enum FileKind {
    /// An entry script that is bundled.
    Script,
    /// A template document that is templated.
    Html,
}

/// Whether the last path component of `path` is exactly `name`.
pub open spec fn has_file_name(path: Seq<u8>, name: Seq<u8>) -> bool {
    is_suffix(name, path) && (path.len() == name.len() || path[path.len() - name.len() - 1]
        == 47u8)
}

/// The classification of a path: which transform applies to it, if any.
pub open spec fn classify_spec(path: Seq<u8>) -> Option<FileKind> {
    if has_file_name(path, "index.template.html".spec_bytes()) {
        Some(FileKind::Html)
    } else if has_file_name(path, "index.ts".spec_bytes()) {
        Some(FileKind::Script)
    } else {
        None
    }
}

/// Whether the last path component of `path` is exactly `name`.
fn check_file_name(path: &[u8], name: &[u8]) -> (r: bool)
    ensures
        r == has_file_name(path@, name@),
{
    if !ends_with(path, name) {
        return false;
    }
    if path.len() == name.len() {
        return true;
    }
    path[path.len() - name.len() - 1] == 47u8
}

/// Classify a path: which transform applies to it, if any. Paths that match
/// neither pattern are ignored entirely.
pub fn classify_file(path: &[u8]) -> (r: Option<FileKind>)
    ensures
        r == classify_spec(path@),
{
    if check_file_name(path, "index.template.html".as_bytes()) {
        Some(FileKind::Html)
    } else if check_file_name(path, "index.ts".as_bytes()) {
        Some(FileKind::Script)
    } else {
        None
    }
}

/// The output path of templating `path`: the sibling `index.html`.
pub open spec fn template_target_spec(path: Seq<u8>) -> Seq<u8> {
    path.take(path.len() - "index.template.html".spec_bytes().len())
        + "index.html".spec_bytes()
}

/// Derive the output path of templating `path`: the sibling `index.html`.
pub fn template_target(path: &[u8]) -> (r: Vec<u8>)
    requires
        has_file_name(path@, "index.template.html".spec_bytes()),
    ensures
        r@ == template_target_spec(path@),
{
    let suffix_len: usize = "index.template.html".as_bytes().len();
    let keep: usize = path.len() - suffix_len;
    let mut out: Vec<u8> = Vec::new();
    crate::text::append_range(&mut out, path, 0, keep);
    append_all(&mut out, "index.html".as_bytes());
    proof {
        assert(path@.subrange(0, keep as int) =~= path@.take(keep as int));
        assert(out@ =~= template_target_spec(path@));
    }
    out
}

/// An invocation count one higher, capped at the machine limit.
pub open spec fn bump(c: int) -> int {
    if c < usize::MAX {
        c + 1
    } else {
        c
    }
}

/// The status of one tracked file.
#[derive(Debug)]
pub struct FileStatus {
    /// How many transform invocations this file has seen.
    pub event_count: usize,
    /// The outcome of the most recent transform: success, or the rendered
    /// failure detail.
    pub last_status: Result<(), String>,
    /// Which transform applies to the file.
    pub kind: FileKind,
}

/// The mathematical value of a `FileStatus`.
pub struct FileStatusV {
    /// How many transform invocations this file has seen.
    pub event_count: int,
    /// The outcome of the most recent transform.
    pub last_status: Result<(), Seq<char>>,
    /// Which transform applies to the file.
    pub kind: FileKind,
}

/// The mathematical value of a transform outcome.
pub open spec fn outcome_view(o: Result<(), String>) -> Result<(), Seq<char>> {
    match o {
        Ok(()) => Ok(()),
        Err(d) => Err(d@),
    }
}

impl View for FileStatus {
    type V = FileStatusV;

    open spec fn view(&self) -> FileStatusV {
        FileStatusV {
            event_count: self.event_count as int,
            last_status: outcome_view(self.last_status),
            kind: self.kind,
        }
    }
}

/// One line of the status table: the kind's past-tense verb and the
/// invocation count on success, or the failure verb, the count, and the
/// failure detail.
pub open spec fn status_line(s: FileStatusV) -> Seq<u8> {
    match s.last_status {
        Ok(()) => (match s.kind {
            FileKind::Script => "was bundled (".spec_bytes(),
            FileKind::Html => "was templated (".spec_bytes(),
        }) + crate::text::dec_digits(s.event_count as nat) + ")".spec_bytes(),
        Err(detail) => (match s.kind {
            FileKind::Script => "failed to bundle (".spec_bytes(),
            FileKind::Html => "failed to template (".spec_bytes(),
        }) + crate::text::dec_digits(s.event_count as nat) + "):\n".spec_bytes()
            + vstd::utf8::encode_utf8(detail),
    }
}

impl FileStatus {
    /// One line of the status table for this file, in bytes.
    pub fn describe_bytes(&self) -> (r: Vec<u8>)
        ensures
            r@ == status_line(self@),
    {
        let mut out: Vec<u8> = Vec::new();
        match &self.last_status {
            Ok(()) => {
                match self.kind {
                    FileKind::Script => append_all(&mut out, "was bundled (".as_bytes()),
                    FileKind::Html => append_all(&mut out, "was templated (".as_bytes()),
                }
                append_decimal(&mut out, self.event_count);
                append_all(&mut out, ")".as_bytes());
            },
            Err(detail) => {
                match self.kind {
                    FileKind::Script => append_all(&mut out, "failed to bundle (".as_bytes()),
                    FileKind::Html => append_all(&mut out, "failed to template (".as_bytes()),
                }
                append_decimal(&mut out, self.event_count);
                append_all(&mut out, "):\n".as_bytes());
                append_all(&mut out, detail.as_str().as_bytes());
            },
        }
        proof {
            assert(out@ =~= status_line(self@));
        }
        out
    }

    /// One line of the status table for this file: the kind's past-tense
    /// verb and the invocation count on success, or the failure verb and
    /// the failure detail.
    pub fn describe(&self) -> (r: String)
        ensures
            vstd::utf8::valid_utf8(status_line(self@)) ==> vstd::utf8::encode_utf8(r@)
                == status_line(self@),
    {
        let bytes = self.describe_bytes();
        crate::text::bytes_to_string_lossy(bytes.as_slice())
    }
}

/// The live per-file status table: a map from canonical path to status,
/// keyed uniquely.
pub struct StatusMap {
    /// The tracked files, each path appearing at most once.
    pub entries: Vec<(Vec<u8>, FileStatus)>,
}

/// The paths of the entries, in order.
pub open spec fn entry_paths(entries: Seq<(Vec<u8>, FileStatus)>) -> Seq<Seq<u8>> {
    entries.map_values(|e: (Vec<u8>, FileStatus)| e.0@)
}

/// The rendered status table: one line per tracked file, each holding the
/// file's path and its status line, in table order.
pub open spec fn table_lines(entries: Seq<(Vec<u8>, FileStatus)>) -> Seq<u8>
    decreases entries.len(),
{
    if entries.len() == 0 {
        Seq::empty()
    } else {
        "`".spec_bytes() + entries[0].0@ + "` ".spec_bytes() + status_line(entries[0].1@)
            + "\n".spec_bytes() + table_lines(entries.drop_first())
    }
}

impl StatusMap {
    /// Each tracked path appears at most once.
    pub open spec fn wf(&self) -> bool {
        forall|i: int, j: int|
            0 <= i < j < self.entries@.len() ==> entry_paths(self.entries@)[i] != entry_paths(
                self.entries@,
            )[j]
    }

    /// The table as a map from path to status.
    pub open spec fn view(&self) -> Map<Seq<u8>, FileStatusV> {
        Map::new(
            |p: Seq<u8>| entry_paths(self.entries@).contains(p),
            |p: Seq<u8>|
                self.entries@[entry_paths(self.entries@).index_of(p)].1@,
        )
    }

    /// What the table's map view holds: each entry is in the map under its
    /// path, and every tracked path is some entry's.
    pub proof fn lemma_view(&self)
        requires
            self.wf(),
        ensures
            forall|i: int|
                0 <= i < self.entries@.len() ==> self@.dom().contains(
                    (#[trigger] self.entries@[i]).0@,
                ) && self@[self.entries@[i].0@] == self.entries@[i].1@,
            forall|q: Seq<u8>|
                self@.dom().contains(q) ==> exists|i: int|
                    0 <= i < self.entries@.len() && (#[trigger] self.entries@[i]).0@ == q,
    {
        let paths = entry_paths(self.entries@);
        assert forall|i: int| 0 <= i < self.entries@.len() implies self@.dom().contains(
            (#[trigger] self.entries@[i]).0@,
        ) && self@[self.entries@[i].0@] == self.entries@[i].1@ by {
            let q = self.entries@[i].0@;
            assert(paths[i] == q);
            assert(paths.contains(q));
            let j = paths.index_of(q);
            assert(0 <= j < paths.len() && paths[j] == q);
            if i != j {
                assert(paths[i] != paths[j]);
            }
        }
        assert forall|q: Seq<u8>| self@.dom().contains(q) implies exists|i: int|
            0 <= i < self.entries@.len() && (#[trigger] self.entries@[i]).0@ == q by {
            let i = choose|i: int| 0 <= i < paths.len() && paths[i] == q;
            assert(self.entries@[i].0@ == q);
        }
    }

    /// An empty table.
    pub fn new() -> (r: StatusMap)
        ensures
            r.wf(),
            r.entries@.len() == 0,
    {
        StatusMap { entries: Vec::new() }
    }

    /// The index of the entry for `path`, if it is tracked.
    fn find_entry(&self, path: &[u8]) -> (r: Option<usize>)
        ensures
            match r {
                Some(i) => i < self.entries@.len() && self.entries@[i as int].0@ == path@,
                None => forall|i: int|
                    0 <= i < self.entries@.len() ==> (#[trigger] self.entries@[i]).0@ != path@,
            },
    {
        let mut i: usize = 0;
        while i < self.entries.len()
            invariant
                0 <= i <= self.entries@.len(),
                forall|j: int| 0 <= j < i ==> (#[trigger] self.entries@[j]).0@ != path@,
            decreases self.entries@.len() - i,
        {
            if bytes_eq(self.entries[i].0.as_slice(), path) {
                return Some(i);
            }
            i = i + 1;
        }
        None
    }

    /// Whether `path` is tracked.
    pub fn contains(&self, path: &[u8]) -> (r: bool)
        ensures
            r == self@.dom().contains(path@),
    {
        let found = self.find_entry(path);
        proof {
            if let Some(i) = found {
                assert(entry_paths(self.entries@)[i as int] == path@);
            } else {
                assert(!entry_paths(self.entries@).contains(path@)) by {
                    if entry_paths(self.entries@).contains(path@) {
                        let i = choose|i: int|
                            0 <= i < entry_paths(self.entries@).len() && entry_paths(
                                self.entries@,
                            )[i] == path@;
                        assert(self.entries@[i].0@ == path@);
                    }
                }
            }
        }
        found.is_some()
    }

    /// The invocation count recorded for `path`, or zero if it is not
    /// tracked.
    pub fn invocation_count(&self, path: &[u8]) -> (r: usize)
        requires
            self.wf(),
        ensures
            self@.dom().contains(path@) ==> r == self@[path@].event_count,
            !self@.dom().contains(path@) ==> r == 0,
    {
        match self.find_entry(path) {
            Some(i) => {
                proof {
                    assert(entry_paths(self.entries@)[i as int] == path@);
                    assert(entry_paths(self.entries@).index_of(path@) == i as int);
                }
                self.entries[i].1.event_count
            },
            None => {
                proof {
                    if entry_paths(self.entries@).contains(path@) {
                        let i = choose|i: int|
                            0 <= i < entry_paths(self.entries@).len() && entry_paths(
                                self.entries@,
                            )[i] == path@;
                        assert(self.entries@[i].0@ == path@);
                    }
                }
                0
            },
        }
    }

    /// Record the outcome of one transform invocation for `path`: a
    /// tracked file's count goes up by one (capped at the machine limit)
    /// and its last status is overwritten; an untracked file enters the
    /// table with count one.
    pub fn record(&mut self, path: &[u8], kind: FileKind, outcome: Result<(), String>)
        requires
            old(self).wf(),
        ensures
            final(self).wf(),
            final(self)@ == old(self)@.insert(
                path@,
                FileStatusV {
                    event_count: if old(self)@.dom().contains(path@) {
                        bump(old(self)@[path@].event_count)
                    } else {
                        1
                    },
                    last_status: outcome_view(outcome),
                    kind,
                },
            ),
    {
        let ghost old_entries = self.entries@;
        let ghost recorded = outcome_view(outcome);
        proof {
            old(self).lemma_view();
        }
        match self.find_entry(path) {
            Some(i) => {
                proof {
                    assert(entry_paths(old_entries)[i as int] == path@);
                    assert(entry_paths(old_entries).contains(path@));
                }
                let count = self.entries[i].1.event_count;
                let new_count = if count < usize::MAX {
                    count + 1
                } else {
                    count
                };
                let path_copy = self.entries[i].0.clone();
                self.entries.set(
                    i,
                    (path_copy, FileStatus { event_count: new_count, last_status: outcome, kind }),
                );
                proof {
                    assert(entry_paths(self.entries@) =~= entry_paths(old_entries));
                    assert(self.wf());
                    self.lemma_view();
                    let target = FileStatusV {
                        event_count: bump(old(self)@[path@].event_count),
                        last_status: recorded,
                        kind,
                    };
                    assert(old(self)@[path@] == old_entries[i as int].1@);
                    assert(self@[path@] == self.entries@[i as int].1@);
                    assert(self@[path@] == target);
                    assert forall|q: Seq<u8>| self@.dom().contains(q) && q != path@ implies
                        old(self)@.dom().contains(q) && self@[q] == old(self)@[q] by {
                        let j = choose|j: int|
                            0 <= j < self.entries@.len() && (#[trigger] self.entries@[j]).0@ == q;
                        assert(j != i);
                        assert(old_entries[j].0@ == q);
                        assert(entry_paths(old_entries)[j] == q);
                        assert(self@[q] == self.entries@[j].1@);
                        assert(old(self)@[q] == old_entries[j].1@);
                    }
                    assert forall|q: Seq<u8>| old(self)@.dom().contains(q) implies
                        self@.dom().contains(q) by {
                        let j = choose|j: int|
                            0 <= j < old_entries.len() && (#[trigger] old_entries[j]).0@ == q;
                        assert(self.entries@[j].0@ == q);
                    }
                    assert(self@ =~= old(self)@.insert(path@, target));
                }
            },
            None => {
                let mut path_copy: Vec<u8> = Vec::new();
                append_all(&mut path_copy, path);
                self.entries.push(
                    (path_copy, FileStatus { event_count: 1, last_status: outcome, kind }),
                );
                proof {
                    let n = old_entries.len() as int;
                    assert(self.entries@[n].0@ =~= path@);
                    assert(forall|j: int|
                        0 <= j < n ==> #[trigger] self.entries@[j] == old_entries[j]);
                    assert(entry_paths(self.entries@)[n] == path@);
                    assert(forall|j: int|
                        0 <= j < n ==> entry_paths(self.entries@)[j] == entry_paths(
                            old_entries,
                        )[j]);
                    assert(!entry_paths(old_entries).contains(path@)) by {
                        if entry_paths(old_entries).contains(path@) {
                            let j = choose|j: int|
                                0 <= j < entry_paths(old_entries).len() && entry_paths(
                                    old_entries,
                                )[j] == path@;
                            assert(old_entries[j].0@ == path@);
                        }
                    }
                    assert(!old(self)@.dom().contains(path@)) by {
                        if old(self)@.dom().contains(path@) {
                            let j = choose|j: int|
                                0 <= j < entry_paths(old_entries).len() && entry_paths(
                                    old_entries,
                                )[j] == path@;
                            assert(entry_paths(old_entries).contains(path@));
                        }
                    }
                    assert forall|a: int, b: int|
                        0 <= a < b < self.entries@.len() implies entry_paths(self.entries@)[a]
                        != entry_paths(self.entries@)[b] by {
                        if b < n {
                            assert(entry_paths(old_entries)[a] != entry_paths(old_entries)[b]);
                        } else {
                            assert(entry_paths(self.entries@)[b] == path@);
                            assert(entry_paths(old_entries)[a] == entry_paths(self.entries@)[a]);
                            assert(entry_paths(old_entries).contains(entry_paths(old_entries)[a]));
                        }
                    }
                    assert(self.wf());
                    self.lemma_view();
                    let target = FileStatusV { event_count: 1, last_status: recorded, kind };
                    assert(self@[path@] == self.entries@[n].1@);
                    assert(self@[path@] == target);
                    assert forall|q: Seq<u8>| self@.dom().contains(q) && q != path@ implies
                        old(self)@.dom().contains(q) && self@[q] == old(self)@[q] by {
                        let j = choose|j: int|
                            0 <= j < self.entries@.len() && (#[trigger] self.entries@[j]).0@ == q;
                        assert(j < n);
                        assert(old_entries[j].0@ == q);
                        assert(entry_paths(old_entries)[j] == q);
                        assert(self@[q] == self.entries@[j].1@);
                        assert(old(self)@[q] == old_entries[j].1@);
                    }
                    assert forall|q: Seq<u8>| old(self)@.dom().contains(q) implies
                        self@.dom().contains(q) by {
                        let j = choose|j: int|
                            0 <= j < old_entries.len() && (#[trigger] old_entries[j]).0@ == q;
                        assert(self.entries@[j].0@ == q);
                    }
                    assert(self@ =~= old(self)@.insert(path@, target));
                }
            },
        }
    }

    /// Evict `path` from the table: a deleted file is no longer tracked.
    pub fn evict(&mut self, path: &[u8])
        requires
            old(self).wf(),
        ensures
            final(self).wf(),
            final(self)@ == old(self)@.remove(path@),
    {
        let ghost old_entries = self.entries@;
        proof {
            old(self).lemma_view();
        }
        match self.find_entry(path) {
            Some(i) => {
                self.entries.remove(i);
                proof {
                    assert(forall|j: int|
                        0 <= j < i ==> #[trigger] self.entries@[j] == old_entries[j]);
                    assert(forall|j: int|
                        i <= j < self.entries@.len() ==> #[trigger] self.entries@[j]
                            == old_entries[j + 1]);
                    assert(forall|j: int|
                        0 <= j < i ==> entry_paths(self.entries@)[j] == entry_paths(
                            old_entries,
                        )[j]);
                    assert(forall|j: int|
                        i <= j < self.entries@.len() ==> entry_paths(self.entries@)[j]
                            == entry_paths(old_entries)[j + 1]);
                    assert forall|a: int, b: int|
                        0 <= a < b < self.entries@.len() implies entry_paths(self.entries@)[a]
                        != entry_paths(self.entries@)[b] by {
                        let a0: int = if a < i { a } else { a + 1 };
                        let b0: int = if b < i { b } else { b + 1 };
                        assert(entry_paths(old_entries)[a0] != entry_paths(old_entries)[b0]);
                    }
                    assert(self.wf());
                    self.lemma_view();
                    assert forall|q: Seq<u8>| self@.dom().contains(q) implies
                        old(self)@.dom().contains(q) && q != path@ && self@[q] == old(self)@[q] by {
                        let j = choose|j: int|
                            0 <= j < self.entries@.len() && (#[trigger] self.entries@[j]).0@ == q;
                        let j0: int = if j < i { j } else { j + 1 };
                        assert(old_entries[j0].0@ == q);
                        assert(entry_paths(old_entries)[j0] == q);
                        if q == path@ {
                            assert(entry_paths(old_entries)[i as int] == path@);
                        }
                        assert(self@[q] == self.entries@[j].1@);
                        assert(old(self)@[q] == old_entries[j0].1@);
                    }
                    assert forall|q: Seq<u8>| old(self)@.dom().contains(q) && q != path@ implies
                        self@.dom().contains(q) by {
                        let j = choose|j: int|
                            0 <= j < old_entries.len() && (#[trigger] old_entries[j]).0@ == q;
                        if j < i {
                            assert(self.entries@[j].0@ == q);
                        } else {
                            assert(entry_paths(old_entries)[j] == q);
                            assert(entry_paths(old_entries)[i as int] == path@);
                            assert(j != i);
                            assert(self.entries@[j - 1].0@ == q);
                        }
                    }
                    assert(self@ =~= old(self)@.remove(path@));
                }
            },
            None => {
                proof {
                    assert(!entry_paths(old_entries).contains(path@)) by {
                        if entry_paths(old_entries).contains(path@) {
                            let j = choose|j: int|
                                0 <= j < entry_paths(old_entries).len() && entry_paths(
                                    old_entries,
                                )[j] == path@;
                            assert(old_entries[j].0@ == path@);
                        }
                    }
                    assert(self@ =~= old(self)@.remove(path@));
                }
            },
        }
    }

    /// How many files the table tracks.
    pub fn len(&self) -> (r: usize)
        requires
            self.wf(),
        ensures
            r == self@.dom().len(),
    {
        proof {
            self.lemma_view();
            assert(self@.dom() =~= entry_paths(self.entries@).to_set());
            crate::watch::lemma_distinct_set_len(entry_paths(self.entries@));
        }
        self.entries.len()
    }

    /// Render the status table in bytes: one line per tracked file, in
    /// table order.
    pub fn render_table_bytes(&self) -> (r: Vec<u8>)
        ensures
            r@ == table_lines(self.entries@),
    {
        let ghost entries = self.entries@;
        let mut out: Vec<u8> = Vec::new();
        proof {
            assert(entries.skip(0) =~= entries);
        }
        let mut i: usize = 0;
        while i < self.entries.len()
            invariant
                0 <= i <= self.entries@.len(),
                entries == self.entries@,
                table_lines(entries) == out@ + table_lines(entries.skip(i as int)),
            decreases self.entries@.len() - i,
        {
            proof {
                assert(entries.skip(i as int)[0] == entries[i as int]);
                assert(entries.skip(i as int).drop_first() =~= entries.skip(i + 1));
            }
            append_all(&mut out, "`".as_bytes());
            append_all(&mut out, self.entries[i].0.as_slice());
            append_all(&mut out, "` ".as_bytes());
            let line = self.entries[i].1.describe_bytes();
            append_all(&mut out, line.as_slice());
            append_all(&mut out, "\n".as_bytes());
            proof {
                assert(table_lines(entries) =~= out@ + table_lines(entries.skip(i + 1)));
            }
            i = i + 1;
        }
        proof {
            assert(table_lines(entries.skip(entries.len() as int)) =~= Seq::<u8>::empty());
            assert(out@ =~= table_lines(entries));
        }
        out
    }

    /// Render the status table: one line per tracked file, in table order.
    pub fn render_table(&self) -> (r: String)
        ensures
            vstd::utf8::valid_utf8(table_lines(self.entries@)) ==> vstd::utf8::encode_utf8(r@)
                == table_lines(self.entries@),
    {
        let bytes = self.render_table_bytes();
        crate::text::bytes_to_string_lossy(bytes.as_slice())
    }
}

/// A sequence of pairwise-distinct values has as many elements as its set.
pub proof fn lemma_distinct_set_len(s: Seq<Seq<u8>>)
    requires
        forall|i: int, j: int| 0 <= i < j < s.len() ==> s[i] != s[j],
    ensures
        s.to_set().len() == s.len(),
        s.to_set().finite(),
    decreases s.len(),
{
    if s.len() > 0 {
        let rest = s.drop_last();
        lemma_distinct_set_len(rest);
        assert(!rest.contains(s.last())) by {
            if rest.contains(s.last()) {
                let i = choose|i: int| 0 <= i < rest.len() && rest[i] == s.last();
                assert(s[i] == s[s.len() - 1]);
            }
        }
        assert forall|x: Seq<u8>| s.to_set().contains(x) implies rest.to_set().contains(x) || x
            == s.last() by {
            let i = choose|i: int| 0 <= i < s.len() && s[i] == x;
            if i < s.len() - 1 {
                assert(rest[i] == x);
            }
        }
        assert forall|x: Seq<u8>| rest.to_set().contains(x) implies s.to_set().contains(x) by {
            let i = choose|i: int| 0 <= i < rest.len() && rest[i] == x;
            assert(s[i] == x);
        }
        assert(s.to_set().contains(s.last()));
        assert(s.to_set() =~= rest.to_set().insert(s.last()));
    } else {
        assert(s.to_set() =~= Set::<Seq<u8>>::empty());
    }
}

/// The category of a filesystem event, as the orchestrator reads it.
#[derive(Debug, Clone, Copy, PartialEq, Eq, Structural)]
pub enum EventCategory {
    /// A file was created or modified.
    CreateOrModify,
    /// A file was removed.
    Remove,
    /// Anything else; ignored.
    Other,
}

/// One filesystem event.
#[derive(Debug)]
pub struct FsEvent {
    /// What happened.
    pub category: EventCategory,
    /// The canonical path it happened to.
    pub path: Vec<u8>,
}

impl View for FsEvent {
    type V = (EventCategory, Seq<u8>);

    open spec fn view(&self) -> (EventCategory, Seq<u8>) {
        (self.category, self.path@)
    }
}

/// What the orchestrator does in response to a settled batch.
#[derive(Debug)]
pub enum WatchAction {
    /// Re-run the transform for a changed file.
    RunTransform {
        /// The canonical path of the file.
        path: Vec<u8>,
        /// Which transform applies.
        kind: FileKind,
    },
    /// Drop a removed file from the status table.
    Evict {
        /// The canonical path of the file.
        path: Vec<u8>,
    },
}

/// The mathematical value of a `WatchAction`.
pub enum WatchActionV {
    /// Re-run the transform for a changed file.
    RunTransform {
        /// The canonical path of the file.
        path: Seq<u8>,
        /// Which transform applies.
        kind: FileKind,
    },
    /// Drop a removed file from the status table.
    Evict {
        /// The canonical path of the file.
        path: Seq<u8>,
    },
}

impl View for WatchAction {
    type V = WatchActionV;

    open spec fn view(&self) -> WatchActionV {
        match self {
            WatchAction::RunTransform { path, kind } => WatchActionV::RunTransform {
                path: path@,
                kind: *kind,
            },
            WatchAction::Evict { path } => WatchActionV::Evict { path: path@ },
        }
    }
}

/// The path an action acts on.
pub open spec fn action_path(a: WatchActionV) -> Seq<u8> {
    match a {
        WatchActionV::RunTransform { path, kind } => path,
        WatchActionV::Evict { path } => path,
    }
}

/// The action one event asks for: re-run the transform of a matching
/// created or modified file, evict a removed file, nothing otherwise.
pub open spec fn event_action(category: EventCategory, path: Seq<u8>) -> Option<WatchActionV> {
    match category {
        EventCategory::CreateOrModify => match classify_spec(path) {
            Some(kind) => Some(WatchActionV::RunTransform { path, kind }),
            None => None,
        },
        EventCategory::Remove => Some(WatchActionV::Evict { path }),
        EventCategory::Other => None,
    }
}

/// The plan already holds an action for this path.
pub open spec fn has_action_for(acc: Seq<WatchActionV>, path: Seq<u8>) -> bool {
    exists|j: int| 0 <= j < acc.len() && action_path(acc[j]) == path
}

/// The plan of a settled batch from event `i` on, given the actions planned
/// so far: one action per path, taken from the path's first actionable
/// event; later events for a path the batch already acts on are redundant.
pub open spec fn plan_from(
    events: Seq<(EventCategory, Seq<u8>)>,
    i: int,
    acc: Seq<WatchActionV>,
) -> Seq<WatchActionV>
    decreases events.len() - i,
{
    if i < 0 || i >= events.len() {
        acc
    } else {
        match event_action(events[i].0, events[i].1) {
            Some(a) => if has_action_for(acc, action_path(a)) {
                plan_from(events, i + 1, acc)
            } else {
                plan_from(events, i + 1, acc.push(a))
            },
            None => plan_from(events, i + 1, acc),
        }
    }
}

/// The plan of a settled batch: at most one action per path.
pub open spec fn plan_spec(events: Seq<(EventCategory, Seq<u8>)>) -> Seq<WatchActionV> {
    plan_from(events, 0, Seq::empty())
}

/// Plan the work of one settled batch of filesystem events: at most one
/// action per path, so a burst of events for one file causes one transform.
pub fn plan_batch(events: &Vec<FsEvent>) -> (r: Vec<WatchAction>)
    ensures
        r@.map_values(|a: WatchAction| a@) == plan_spec(
            events@.map_values(|e: FsEvent| e@),
        ),
{
    let ghost evs = events@.map_values(|e: FsEvent| e@);
    let mut acc: Vec<WatchAction> = Vec::new();
    proof {
        assert(acc@.map_values(|a: WatchAction| a@) =~= Seq::<WatchActionV>::empty());
    }
    let mut i: usize = 0;
    while i < events.len()
        invariant
            0 <= i <= events@.len(),
            evs == events@.map_values(|e: FsEvent| e@),
            evs.len() == events@.len(),
            plan_spec(evs) == plan_from(evs, i as int, acc@.map_values(|a: WatchAction| a@)),
        decreases events@.len() - i,
    {
        let ghost accv = acc@.map_values(|a: WatchAction| a@);
        let e = &events[i];
        proof {
            assert(evs[i as int] == (e.category, e.path@));
        }
        match e.category {
            EventCategory::CreateOrModify => {
                match classify_file(e.path.as_slice()) {
                    Some(kind) => {
                        if !contains_action_for(&acc, e.path.as_slice()) {
                            let mut path_copy: Vec<u8> = Vec::new();
                            append_all(&mut path_copy, e.path.as_slice());
                            acc.push(WatchAction::RunTransform { path: path_copy, kind });
                            proof {
                                assert(acc@.map_values(|a: WatchAction| a@) =~= accv.push(
                                    WatchActionV::RunTransform { path: e.path@, kind },
                                ));
                            }
                        }
                    },
                    None => {},
                }
            },
            EventCategory::Remove => {
                if !contains_action_for(&acc, e.path.as_slice()) {
                    let mut path_copy: Vec<u8> = Vec::new();
                    append_all(&mut path_copy, e.path.as_slice());
                    acc.push(WatchAction::Evict { path: path_copy });
                    proof {
                        assert(acc@.map_values(|a: WatchAction| a@) =~= accv.push(
                            WatchActionV::Evict { path: e.path@ },
                        ));
                    }
                }
            },
            EventCategory::Other => {},
        }
        i = i + 1;
    }
    proof {
        assert(plan_from(evs, evs.len() as int, acc@.map_values(|a: WatchAction| a@))
            == acc@.map_values(|a: WatchAction| a@));
    }
    acc
}

/// Whether the planned actions already cover this path.
fn contains_action_for(acc: &Vec<WatchAction>, path: &[u8]) -> (r: bool)
    ensures
        r == has_action_for(acc@.map_values(|a: WatchAction| a@), path@),
{
    let ghost accv = acc@.map_values(|a: WatchAction| a@);
    let mut i: usize = 0;
    while i < acc.len()
        invariant
            0 <= i <= acc@.len(),
            accv == acc@.map_values(|a: WatchAction| a@),
            accv.len() == acc@.len(),
            forall|j: int| 0 <= j < i ==> action_path(accv[j]) != path@,
        decreases acc@.len() - i,
    {
        let covered = match &acc[i] {
            WatchAction::RunTransform { path: p, kind } => bytes_eq(p.as_slice(), path),
            WatchAction::Evict { path: p } => bytes_eq(p.as_slice(), path),
        };
        if covered {
            proof {
                assert(action_path(accv[i as int]) == path@);
            }
            return true;
        }
        i = i + 1;
    }
    false
}

/// How many settled batches a run of timed events forms: a batch closes
/// once no further event arrives within the quiet window.
pub open spec fn batch_count(times: Seq<int>, quiet: int) -> int
    decreases times.len(),
{
    if times.len() == 0 {
        0
    } else if times.len() == 1 {
        1
    } else {
        batch_count(times.drop_first(), quiet) + if times[1] - times[0] > quiet {
            1int
        } else {
            0int
        }
    }
}

/// Law: a burst of events for one path, each arriving within the quiet
/// window of the one before, settles as a single batch, and that batch
/// plans exactly one transform invocation for the path — so the status
/// table is redrawn once, not once per raw event.
pub proof fn lemma_debounce(
    events: Seq<(EventCategory, Seq<u8>)>,
    times: Seq<int>,
    quiet: int,
    path: Seq<u8>,
    kind: FileKind,
)
    requires
        events.len() >= 1,
        times.len() == events.len(),
        forall|i: int| 0 <= i < events.len() ==> events[i] == (EventCategory::CreateOrModify, path),
        classify_spec(path) == Some(kind),
        forall|i: int| 0 < i < times.len() ==> #[trigger] times[i] - times[i - 1] <= quiet,
    ensures
        batch_count(times, quiet) == 1,
        plan_spec(events) == seq![WatchActionV::RunTransform { path, kind }],
{
    lemma_batch_count_quiet(times, quiet);
    let a = WatchActionV::RunTransform { path, kind };
    assert(events[0] == (EventCategory::CreateOrModify, path));
    assert(!has_action_for(Seq::empty(), path));
    assert(plan_spec(events) == plan_from(events, 1, seq![a])) by {
        assert(Seq::<WatchActionV>::empty().push(a) =~= seq![a]);
    }
    assert(action_path(seq![a][0]) == path);
    assert(has_action_for(seq![a], path));
    lemma_plan_saturated(events, 1, seq![a], path);
}

/// Once a batch holds an action for the path every event names, nothing
/// more is planned.
proof fn lemma_plan_saturated(
    events: Seq<(EventCategory, Seq<u8>)>,
    i: int,
    acc: Seq<WatchActionV>,
    path: Seq<u8>,
)
    requires
        0 <= i,
        forall|j: int| 0 <= j < events.len() ==> (#[trigger] events[j]).1 == path,
        has_action_for(acc, path),
    ensures
        plan_from(events, i, acc) == acc,
    decreases events.len() - i,
{
    if i < events.len() {
        match event_action(events[i].0, events[i].1) {
            Some(a) => {
                assert(action_path(a) == path);
                lemma_plan_saturated(events, i + 1, acc, path);
            },
            None => {
                lemma_plan_saturated(events, i + 1, acc, path);
            },
        }
    }
}

/// Events each within the quiet window of the one before form one batch.
proof fn lemma_batch_count_quiet(times: Seq<int>, quiet: int)
    requires
        times.len() >= 1,
        forall|i: int| 0 < i < times.len() ==> #[trigger] times[i] - times[i - 1] <= quiet,
    ensures
        batch_count(times, quiet) == 1,
    decreases times.len(),
{
    if times.len() > 1 {
        let rest = times.drop_first();
        assert(forall|i: int| 0 < i < rest.len() ==> #[trigger] rest[i] == times[i + 1] && rest[i - 1]
            == times[i]);
        lemma_batch_count_quiet(rest, quiet);
    }
}

} // verus!
