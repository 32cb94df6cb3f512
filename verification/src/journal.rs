//! The journal's writer: the order of its records, and when they are durable.
//!
//! A record is written with one write. A record that must survive a crash is made durable before
//! the append is reported; every other one waits for the next of those, or for the first append
//! after [`GROUP_COMMIT_INTERVAL`]. One process has one writer per file, because only then does a
//! gap in its ordinals mean that a record was lost.
//!
//! The file itself is the caller's: each function here takes what the file said.
use vstd::prelude::*;

use crate::model::{AgentId, NodeState};
use crate::paths;
use crate::paths::same_path;
use crate::records::{Fact, RecordKind};
use crate::text;
use crate::text::{cat2, cat3, cat4, cat5, decimal_text};

verus! {

/// How long a record may wait to be made durable, in nanoseconds.
pub const GROUP_COMMIT_INTERVAL: u64 = 50_000_000;

/// One process that writes. Two processes never share an identity.
#[derive(Debug)]
pub struct WriterId(pub String);

impl View for WriterId {
    type V = Seq<char>;

    open spec fn view(&self) -> Seq<char> {
        self.0@
    }
}

impl Clone for WriterId {
    fn clone(&self) -> (res: Self)
        ensures
            res == *self,
    {
        WriterId(self.0.clone())
    }
}

impl PartialEq for WriterId {
    fn eq(&self, other: &WriterId) -> (r: bool) {
        self.0 == other.0
    }
}

impl vstd::std_specs::cmp::PartialEqSpecImpl for WriterId {
    open spec fn obeys_eq_spec() -> bool {
        true
    }

    open spec fn eq_spec(&self, other: &WriterId) -> bool {
        self@ == other@
    }
}

/// A writer's identity: the process id and something that separates two runs of one id. Where there
/// is no entropy the time stands for it.
pub open spec fn identity(pid: u32, unique: Option<Seq<char>>, unix_millis: u64) -> Seq<char> {
    text::decimal(pid as nat) + "-"@ + (match unique {
        Some(u) => u,
        None => "no-entropy-"@ + text::decimal(unix_millis as nat),
    })
}

/// [`identity`], as a writer.
pub fn writer_id(pid: u32, unique: Option<&str>, unix_millis: u64) -> (w: WriterId)
    ensures
        w@ == identity(
            pid,
            match unique {
                Some(u) => Some(u@),
                None => None,
            },
            unix_millis,
        ),
{
    let pid_text = decimal_text(pid as u64);
    let suffix = match unique {
        Some(u) => u.to_string(),
        None => {
            let millis = decimal_text(unix_millis);
            cat2("no-entropy-", millis.as_str())
        },
    };
    WriterId(cat3(pid_text.as_str(), "-", suffix.as_str()))
}

/// Why a record did not land.
#[derive(Debug)]
pub enum JournalError {
    /// The file could not be opened, written, made durable or read, in the system's words.
    Io(String),
    /// The record could not be encoded, in the encoder's words.
    Encode(String),
    /// The record was written short, and its line closed.
    TornWrite { written: usize, len: usize },
}

/// Said of a torn write, around the two lengths.
pub const TORN: (&'static str, &'static str, &'static str) = (
    "a journal record was written short (",
    " of ",
    " bytes); the torn line has been closed with a newline so no concurrent writer's record can be \
    glued onto it, and replay will discard it",
);

impl JournalError {
    /// The error as a sentence.
    pub open spec fn sentence(self) -> Seq<char> {
        match self {
            JournalError::Io(why) => "journal io: "@ + why@,
            JournalError::Encode(why) => why@,
            JournalError::TornWrite { written, len } => TORN.0@ + text::decimal(written as nat)
                + TORN.1@ + text::decimal(len as nat) + TORN.2@,
        }
    }

    /// [`Self::sentence`], as text.
    pub fn message(&self) -> (s: String)
        ensures
            s@ == self.sentence(),
    {
        match self {
            JournalError::Io(why) => cat2("journal io: ", why.as_str()),
            JournalError::Encode(why) => why.clone(),
            JournalError::TornWrite { written, len } => {
                let w = decimal_text(*written as u64);
                let l = decimal_text(*len as u64);
                cat5(TORN.0, w.as_str(), TORN.1, l.as_str(), TORN.2)
            },
        }
    }
}

/// Whose observation a record is.
#[derive(Debug, Clone, Copy, PartialEq, Eq, Structural)]
pub enum Provenance {
    /// The supervisor's own, of its own decision.
    Marion,
}

/// One record, as it is written.
#[derive(Debug)]
pub struct JournalRecord {
    pub writer: WriterId,
    /// The record's place among those of its writer.
    pub seq: u64,
    /// When it was made, in milliseconds since the epoch.
    pub ts: u64,
    /// When it was made, in nanoseconds since its writer began.
    pub mono_ns: u64,
    pub provenance: Provenance,
    /// The source's own ordering, which there is none of: the supervisor is the source.
    pub src_seq: Option<u64>,
    pub kind: RecordKind,
}

/// How much later than `since` it is at `now`; a clock that went back has not moved.
pub open spec fn elapsed(since: u64, now: u64) -> u64 {
    if now >= since {
        (now - since) as u64
    } else {
        0
    }
}

/// [`elapsed`], as a value.
fn elapsed_ns(since: u64, now: u64) -> (d: u64)
    ensures
        d == elapsed(since, now),
{
    if now >= since {
        now - since
    } else {
        0
    }
}

/// A journal being written. Times are nanoseconds of one clock that never goes back.
#[derive(Debug)]
pub struct Journal {
    pub path: String,
    pub writer: WriterId,
    /// How many records this writer has written.
    pub seq: u64,
    /// Something is written and not yet durable.
    pub dirty: bool,
    pub last_sync: u64,
    /// When this writer began.
    pub start: u64,
}

/// A journal, as contracts speak of it.
pub struct JournalModel {
    pub path: Seq<char>,
    pub writer: Seq<char>,
    pub seq: u64,
    pub dirty: bool,
    pub last_sync: u64,
    pub start: u64,
}

/// What one write of a whole record did.
pub enum Outcome {
    /// Nothing was written.
    Nothing,
    /// The line was cut short and closed.
    Torn,
    /// The line is whole, and has to be made durable now.
    Whole,
    /// The line is whole, and may wait.
    Waiting,
}

impl JournalModel {
    /// The time for a group of records to be made durable has come.
    pub open spec fn interval_over(self, now: u64) -> bool {
        elapsed(self.last_sync, now) >= GROUP_COMMIT_INTERVAL
    }

    /// What the write of a line of `len` bytes did, `written` of which it took.
    pub open spec fn outcome(
        self,
        len: usize,
        written: Option<usize>,
        barrier: bool,
        now: u64,
    ) -> Outcome {
        match written {
            None => Outcome::Nothing,
            Some(w) => if w != len {
                Outcome::Torn
            } else if barrier || self.interval_over(now) {
                Outcome::Whole
            } else {
                Outcome::Waiting
            },
        }
    }

    /// The journal after a write.
    pub open spec fn after(self, o: Outcome, now: u64) -> JournalModel {
        match o {
            Outcome::Nothing => self,
            Outcome::Torn => JournalModel {
                seq: (self.seq + 1) as u64,
                dirty: false,
                last_sync: now,
                ..self
            },
            _ => JournalModel { seq: (self.seq + 1) as u64, dirty: true, ..self },
        }
    }

    /// The journal after an attempt to make it durable. There is nothing to attempt where nothing
    /// waits.
    pub open spec fn after_sync(self, held: bool, now: u64) -> JournalModel {
        if self.dirty && !held {
            self
        } else {
            JournalModel { dirty: false, last_sync: now, ..self }
        }
    }

    /// The record is this writer's next, made at `now`.
    pub open spec fn is_next(self, record: JournalRecord, now: u64) -> bool {
        &&& record.writer@ == self.writer
        &&& record.seq == self.seq
        &&& record.mono_ns == elapsed(self.start, now)
        &&& record.provenance == Provenance::Marion
        &&& record.src_seq is None
    }
}

impl View for Journal {
    type V = JournalModel;

    open spec fn view(&self) -> JournalModel {
        JournalModel {
            path: self.path@,
            writer: self.writer@,
            seq: self.seq,
            dirty: self.dirty,
            last_sync: self.last_sync,
            start: self.start,
        }
    }
}

/// What an append comes to, once the line was written.
#[derive(Debug)]
pub enum Appended {
    /// The record did not land.
    Failed(JournalError),
    /// The record was cut short: its line has to be closed with a newline and made durable before
    /// the error is reported.
    Torn(JournalError),
    /// The record has to be made durable before it is reported.
    Sync(JournalRecord),
    /// The record is written.
    Done(JournalRecord),
}

/// What became of one record's line: the encoder's refusal, or the length of the line and what the
/// one write of it took.
#[derive(Debug)]
pub enum Line {
    Unencodable(String),
    Unwritten { len: usize, why: String },
    Written { len: usize, took: usize },
}

impl Line {
    /// The length of the line and how much of it was written.
    pub open spec fn taken(self) -> (usize, Option<usize>) {
        match self {
            Line::Unencodable(_) => (0, None),
            Line::Unwritten { len, .. } => (len, None),
            Line::Written { len, took } => (len, Some(took)),
        }
    }
}

impl Journal {
    /// A journal that has been opened for appending, or why it could not be.
    pub fn open_path(
        path: &str,
        writer: WriterId,
        opened: Result<(), String>,
        now: u64,
    ) -> (r: Result<Journal, JournalError>)
        ensures
            match opened {
                Ok(_) => r matches Ok(j) && j@ == (JournalModel {
                    path: path@,
                    writer: writer@,
                    seq: 0,
                    dirty: false,
                    last_sync: now,
                    start: now,
                }),
                Err(why) => r == Err::<Journal, JournalError>(JournalError::Io(why)),
            },
    {
        match opened {
            Ok(_) => Ok(
                Journal {
                    path: path.to_string(),
                    writer,
                    seq: 0,
                    dirty: false,
                    last_sync: now,
                    start: now,
                },
            ),
            Err(why) => Err(JournalError::Io(why)),
        }
    }

    /// The file.
    pub fn path(&self) -> (p: &str)
        ensures
            p@ == self@.path,
    {
        self.path.as_str()
    }

    /// Who writes.
    pub fn writer(&self) -> (w: &WriterId)
        ensures
            w@ == self@.writer,
    {
        &self.writer
    }

    /// The record this writer writes next.
    pub fn draft(&self, kind: RecordKind, ts: u64, now: u64) -> (record: JournalRecord)
        ensures
            self@.is_next(record, now),
            record.ts == ts,
            record.kind == kind,
    {
        JournalRecord {
            writer: self.writer.clone(),
            seq: self.seq,
            ts,
            mono_ns: elapsed_ns(self.start, now),
            provenance: Provenance::Marion,
            src_seq: None,
            kind,
        }
    }

    /// Take what became of a record's line. `barrier` says whether the record must survive a crash.
    pub fn append(&mut self, record: JournalRecord, barrier: bool, line: Line, now: u64) -> (r:
        Appended)
        requires
            old(self)@.seq < u64::MAX,
        ensures
            ({
                let (len, took) = line.taken();
                let o = old(self)@.outcome(len, took, barrier, now);
                &&& final(self)@ == old(self)@.after(o, now)
                &&& match o {
                    Outcome::Nothing => match line {
                        Line::Unencodable(why) => r == Appended::Failed(JournalError::Encode(why)),
                        Line::Unwritten { why, .. } => r == Appended::Failed(JournalError::Io(why)),
                        Line::Written { .. } => false,
                    },
                    Outcome::Torn => r == Appended::Torn(
                        JournalError::TornWrite { written: took->0, len },
                    ),
                    Outcome::Whole => r == Appended::Sync(record),
                    Outcome::Waiting => r == Appended::Done(record),
                }
            }),
    {
        match line {
            Line::Unencodable(why) => Appended::Failed(JournalError::Encode(why)),
            Line::Unwritten { why, .. } => Appended::Failed(JournalError::Io(why)),
            Line::Written { len, took } => {
                self.seq = self.seq + 1;
                self.dirty = true;
                if took != len {
                    self.dirty = false;
                    self.last_sync = now;
                    return Appended::Torn(JournalError::TornWrite { written: took, len });
                }
                if barrier || elapsed_ns(self.last_sync, now) >= GROUP_COMMIT_INTERVAL {
                    Appended::Sync(record)
                } else {
                    Appended::Done(record)
                }
            },
        }
    }

    /// Take what an attempt to make everything durable came to. Where nothing was waiting there was
    /// no attempt, and `held` says nothing.
    pub fn sync(&mut self, held: Result<(), String>, now: u64) -> (r: Result<(), JournalError>)
        ensures
            final(self)@ == old(self)@.after_sync(held is Ok, now),
            match held {
                Err(why) if old(self)@.dirty => r == Err::<(), JournalError>(JournalError::Io(why)),
                _ => r is Ok,
            },
    {
        if self.dirty {
            if let Err(why) = held {
                return Err(JournalError::Io(why));
            }
            self.dirty = false;
        }
        self.last_sync = now;
        Ok(())
    }

    /// Report a record that had to be made durable first, or why it could not be.
    pub fn commit(
        &mut self,
        record: JournalRecord,
        held: Result<(), String>,
        now: u64,
    ) -> (r: Result<JournalRecord, JournalError>)
        ensures
            final(self)@ == old(self)@.after_sync(held is Ok, now),
            match held {
                Err(why) if old(self)@.dirty => r == Err::<JournalRecord, JournalError>(
                    JournalError::Io(why),
                ),
                _ => r == Ok::<JournalRecord, JournalError>(record),
            },
    {
        match self.sync(held, now) {
            Ok(_) => Ok(record),
            Err(e) => Err(e),
        }
    }

    /// Whether something has waited long enough to be made durable now.
    pub fn due(&self, now: u64) -> (r: bool)
        ensures
            r == (self@.dirty && self@.interval_over(now)),
    {
        self.dirty && elapsed_ns(self.last_sync, now) >= GROUP_COMMIT_INTERVAL
    }

    /// The timer's half, for a caller with an idle loop: what has waited long enough is made
    /// durable, and a failure to do so is tried again at the next append.
    pub fn tick(&mut self, held: Result<(), String>, now: u64)
        ensures
            final(self)@ == (if old(self)@.dirty && old(self)@.interval_over(now) {
                old(self)@.after_sync(held is Ok, now)
            } else {
                old(self)@
            }),
    {
        if self.due(now) {
            let _ = self.sync(held, now);
        }
    }
}

/// Said where a record whose loss can be borne did not land.
pub fn record_failed(e: &JournalError) -> (s: String)
    ensures
        s@ == "marion: journal write failed: "@ + e.sentence(),
{
    let why = e.message();
    cat2("marion: journal write failed: ", why.as_str())
}

/// Said where the journal such a record goes into could not be opened.
pub fn cannot_open(path: &str, e: &JournalError) -> (s: String)
    ensures
        s@ == "marion: cannot open the journal "@ + path@ + ": "@ + e.sentence(),
{
    let why = e.message();
    cat4("marion: cannot open the journal ", path, ": ", why.as_str())
}

/// The journals this process has open, one for each file, kept for its life.
#[derive(Debug)]
pub struct Journals {
    pub open: Vec<Journal>,
    /// This process's identity, once it has needed one.
    pub writer: Option<WriterId>,
}

/// The journals, as contracts speak of them.
#[verifier::ext_equal]
pub struct JournalsModel {
    pub open: Seq<JournalModel>,
    pub writer: Option<Seq<char>>,
}

impl View for Journals {
    type V = JournalsModel;

    open spec fn view(&self) -> JournalsModel {
        JournalsModel {
            open: self.open@.map_values(|j: Journal| j@),
            writer: match self.writer {
                Some(w) => Some(w@),
                None => None,
            },
        }
    }
}

impl JournalsModel {
    /// The journal at `i` is the one for `path`.
    pub open spec fn is_for(self, i: int, path: Seq<char>) -> bool {
        &&& 0 <= i < self.open.len()
        &&& paths::components(self.open[i].path) == paths::components(path)
    }

    /// One journal for each file, and one identity for all of them.
    pub open spec fn one_writer_each(self) -> bool {
        &&& forall|i: int, j: int|
            0 <= i < j < self.open.len() ==> paths::components((#[trigger] self.open[i]).path)
                != paths::components((#[trigger] self.open[j]).path)
        &&& forall|i: int|
            0 <= i < self.open.len() ==> self.writer == Some((#[trigger] self.open[i]).writer)
    }
}

impl Journals {
    /// No file is open twice.
    pub open spec fn wf(&self) -> bool {
        self@.one_writer_each()
    }

    /// Nothing is open.
    pub fn new() -> (s: Self)
        ensures
            s.wf(),
            s@ == (JournalsModel { open: Seq::empty(), writer: None }),
    {
        let s = Journals { open: Vec::new(), writer: None };
        assert(s@.open =~= Seq::<JournalModel>::empty());
        s
    }

    /// The journal for `path`, where it is open.
    pub fn find(&self, path: &str) -> (r: Option<usize>)
        requires
            self.wf(),
        ensures
            match r {
                Some(i) => self@.is_for(i as int, path@),
                None => forall|i: int| !(#[trigger] self@.is_for(i, path@)),
            },
    {
        let mut i: usize = 0;
        while i < self.open.len()
            invariant
                i <= self.open.len(),
                forall|j: int| 0 <= j < i ==> !(#[trigger] self@.is_for(j, path@)),
            decreases self.open.len() - i,
        {
            assert(self@.open[i as int] == self.open@[i as int]@);
            if same_path(self.open[i].path.as_str(), path) {
                return Some(i);
            }
            i = i + 1;
        }
        None
    }

    /// This process's identity: the first that was offered.
    pub fn this_writer(&mut self, fresh: WriterId) -> (w: WriterId)
        requires
            old(self).wf(),
        ensures
            final(self).wf(),
            w@ == (match old(self)@.writer {
                Some(had) => had,
                None => fresh@,
            }),
            final(self)@ == (JournalsModel { writer: Some(w@), ..old(self)@ }),
    {
        match &self.writer {
            Some(w) => w.clone(),
            None => {
                self.writer = Some(fresh.clone());
                proof {
                    assert(old(self)@.open.len() == 0) by {
                        if old(self)@.open.len() > 0 {
                            assert(old(self)@.writer == Some(old(self)@.open[0].writer));
                        }
                    }
                }
                fresh
            },
        }
    }

    /// This process's journal for `path`, opened on first use and kept. `fresh` and `opened` are
    /// what an identity and the file would be on first use.
    pub fn entry(
        &mut self,
        path: &str,
        fresh: WriterId,
        opened: Result<(), String>,
        now: u64,
    ) -> (r: Result<usize, JournalError>)
        requires
            old(self).wf(),
        ensures
            final(self).wf(),
            (exists|i: int| #[trigger] old(self)@.is_for(i, path@)) ==> {
                &&& r matches Ok(i)
                &&& old(self)@.is_for(i as int, path@)
                &&& final(self)@ == old(self)@
            },
            !(exists|i: int| #[trigger] old(self)@.is_for(i, path@)) ==> {
                let w = match old(self)@.writer {
                    Some(had) => had,
                    None => fresh@,
                };
                match opened {
                    Ok(_) => {
                        &&& r == Ok::<usize, JournalError>(old(self)@.open.len() as usize)
                        &&& final(self)@ == (JournalsModel {
                            open: old(self)@.open.push(
                                JournalModel {
                                    path: path@,
                                    writer: w,
                                    seq: 0,
                                    dirty: false,
                                    last_sync: now,
                                    start: now,
                                },
                            ),
                            writer: Some(w),
                        })
                    },
                    Err(why) => {
                        &&& r == Err::<usize, JournalError>(JournalError::Io(why))
                        &&& final(self)@ == (JournalsModel { writer: Some(w), ..old(self)@ })
                    },
                }
            },
    {
        if let Some(i) = self.find(path) {
            return Ok(i);
        }
        let w = self.this_writer(fresh);
        let ghost before = self@;
        match Journal::open_path(path, w, opened, now) {
            Ok(j) => {
                let at: usize = self.open.len();
                self.open.push(j);
                proof {
                    assert(self@.open =~= before.open.push(j@));
                    assert forall|a: int, b: int| 0 <= a < b < self@.open.len() implies
                        paths::components((#[trigger] self@.open[a]).path) != paths::components(
                        (#[trigger] self@.open[b]).path,
                    ) by {
                        if b == before.open.len() {
                            assert(!old(self)@.is_for(a, path@));
                            assert(before.open[a] == self@.open[a]);
                        }
                    }
                    assert forall|a: int| 0 <= a < self@.open.len() implies self@.writer == Some(
                        (#[trigger] self@.open[a]).writer,
                    ) by {
                        if a < before.open.len() {
                            assert(before.open[a] == self@.open[a]);
                        }
                    }
                }
                Ok(at)
            },
            Err(e) => Err(e),
        }
    }
}

/// The record of a node that runs.
pub fn running(agent_id: &AgentId) -> (k: RecordKind)
    ensures
        k@ == (Fact::StateChanged { agent: agent_id@, state: NodeState::Running }),
{
    RecordKind::StateChanged { agent_id: agent_id.clone(), state: NodeState::Running }
}

/// A process was confirmed: `appended` is what came of the append of its record. Where that landed
/// the node is recorded as running next, and the loss of that second record can be borne; where it
/// did not, nothing more is written and the failure is handed back.
pub fn confirm_spawned(
    agent_id: &AgentId,
    appended: Result<JournalRecord, JournalError>,
) -> (r: Result<(JournalRecord, RecordKind), JournalError>)
    ensures
        match appended {
            Ok(confirmed) => {
                &&& r matches Ok((record, next))
                &&& record == confirmed
                &&& next@ == (Fact::StateChanged { agent: agent_id@, state: NodeState::Running })
            },
            Err(e) => r == Err::<(JournalRecord, RecordKind), JournalError>(e),
        },
{
    match appended {
        Ok(confirmed) => Ok((confirmed, running(agent_id))),
        Err(e) => Err(e),
    }
}

/// One record for each permission that was refused, in order.
pub open spec fn denials(agent: Seq<char>, tools: Seq<String>, reason: Seq<char>) -> Seq<Fact> {
    tools.map_values(|tool: String| Fact::PermissionDenied { agent, tool: tool@, reason })
}

/// [`denials`], as records.
pub fn record_permission_denials(agent_id: &AgentId, tools: &Vec<String>, reason: &str) -> (records:
    Vec<RecordKind>)
    ensures
        records@.map_values(|k: RecordKind| k@) == denials(agent_id@, tools@, reason@),
{
    let mut records: Vec<RecordKind> = Vec::new();
    let mut i: usize = 0;
    while i < tools.len()
        invariant
            i <= tools.len(),
            records@.len() == i,
            forall|j: int|
                0 <= j < i ==> (#[trigger] records@[j])@ == (Fact::PermissionDenied {
                    agent: agent_id@,
                    tool: tools@[j]@,
                    reason: reason@,
                }),
        decreases tools.len() - i,
    {
        records.push(
            RecordKind::PermissionDenied {
                agent_id: agent_id.clone(),
                tool: tools[i].clone(),
                reason: reason.to_string(),
            },
        );
        i = i + 1;
    }
    assert(records@.map_values(|k: RecordKind| k@) =~= denials(agent_id@, tools@, reason@));
    records
}

/// Why a file could not be read.
#[derive(Debug)]
pub enum ReadFailure {
    Missing,
    Unreadable(String),
}

/// What a journal holds. A file that is not there holds no records; one that cannot be read is an
/// error, because reporting no records for it would claim that there are no nodes.
pub fn read_path(read: Result<Vec<u8>, ReadFailure>) -> (r: Result<Vec<u8>, JournalError>)
    ensures
        match read {
            Ok(bytes) => r == Ok::<Vec<u8>, JournalError>(bytes),
            Err(ReadFailure::Missing) => r matches Ok(none) && none@ == Seq::<u8>::empty(),
            Err(ReadFailure::Unreadable(why)) => r == Err::<Vec<u8>, JournalError>(
                JournalError::Io(why),
            ),
        },
{
    match read {
        Ok(bytes) => Ok(bytes),
        Err(ReadFailure::Missing) => Ok(Vec::new()),
        Err(ReadFailure::Unreadable(why)) => Err(JournalError::Io(why)),
    }
}

/// A record that must survive a crash is reported only once it is durable: no append of one is done
/// after the write alone, and the attempt that lets it be reported leaves nothing waiting.
pub proof fn law_a_barrier_is_durable_before_it_is_reported(
    j: JournalModel,
    len: usize,
    took: Option<usize>,
    now: u64,
    later: u64,
)
    ensures
        !(j.outcome(len, took, true, now) is Waiting),
        j.outcome(len, took, true, now) is Whole ==> {
            let written = j.after(Outcome::Whole, now);
            &&& written.dirty
            &&& !written.after_sync(true, later).dirty
            &&& written.after_sync(false, later) == written
        },
{
}

/// A writer counts without gaps: a record that reached the file, whole or cut short, took one place,
/// and one that did not took none. Neither the timer nor making records durable moves the count.
pub proof fn law_a_writer_counts_without_gaps(
    j: JournalModel,
    len: usize,
    took: Option<usize>,
    barrier: bool,
    held: bool,
    now: u64,
)
    requires
        j.seq < u64::MAX,
    ensures
        j.after(j.outcome(len, took, barrier, now), now).seq == j.seq + (if took is Some {
            1int
        } else {
            0int
        }),
        j.after(j.outcome(len, took, barrier, now), now).writer == j.writer,
        j.after(j.outcome(len, took, barrier, now), now).start == j.start,
        j.after_sync(held, now).seq == j.seq,
        j.after_sync(held, now).writer == j.writer,
        j.after_sync(held, now).start == j.start,
{
}

/// Two records of one writer are ordered alike by their place and by their time.
pub proof fn law_a_later_record_is_not_earlier(
    j: JournalModel,
    first: JournalRecord,
    at: u64,
    o: Outcome,
    wrote: u64,
    second: JournalRecord,
    then: u64,
)
    requires
        j.seq < u64::MAX,
        j.is_next(first, at),
        j.after(o, wrote).is_next(second, then),
        !(o is Nothing),
        at <= then,
    ensures
        first.writer@ == second.writer@,
        second.seq == first.seq + 1,
        first.mono_ns <= second.mono_ns,
{
}

/// A record that may wait does so for less than the interval: an append after it makes everything
/// durable, and so does the timer.
pub proof fn law_nothing_waits_past_the_interval(
    j: JournalModel,
    len: usize,
    took: usize,
    barrier: bool,
    now: u64,
)
    requires
        j.interval_over(now),
    ensures
        !(j.outcome(len, Some(took), barrier, now) is Waiting),
        !j.after_sync(true, now).dirty,
{
}

/// A write is judged by what it took: nothing was written where it took nothing, a line is torn where
/// it took another length, and a whole line is made durable at once where it is a barrier or fifty
/// milliseconds have passed since that was last done.
pub proof fn law_a_write_is_judged_by_what_it_took(
    j: JournalModel,
    len: usize,
    took: Option<usize>,
    barrier: bool,
    now: u64,
)
    ensures
        ({
            let o = j.outcome(len, took, barrier, now);
            &&& o is Nothing <==> took is None
            &&& o is Torn <==> took is Some && took->0 != len
            &&& o is Whole <==> took == Some(len) && (barrier || now
                >= j.last_sync + 50_000_000)
            &&& o is Waiting <==> took == Some(len) && !barrier && now < j.last_sync
                + 50_000_000
        }),
{
}

/// What reached the file waits to be made durable until it is; a line that was torn is closed and
/// made durable by itself; and what could not be made durable waits on, with the clock where it was.
pub proof fn law_what_is_written_waits_until_it_is_durable(
    j: JournalModel,
    now: u64,
    held: bool,
)
    requires
        j.seq < u64::MAX,
    ensures
        j.after(Outcome::Nothing, now) == j,
        j.after(Outcome::Torn, now).seq == j.seq + 1,
        !j.after(Outcome::Torn, now).dirty,
        j.after(Outcome::Torn, now).last_sync == now,
        j.after(Outcome::Whole, now) == j.after(Outcome::Waiting, now),
        j.after(Outcome::Whole, now).seq == j.seq + 1,
        j.after(Outcome::Whole, now).dirty,
        j.after(Outcome::Whole, now).last_sync == j.last_sync,
        j.dirty && !held ==> j.after_sync(held, now) == j,
        !j.dirty || held ==> {
            &&& !j.after_sync(held, now).dirty
            &&& j.after_sync(held, now).last_sync == now
            &&& j.after_sync(held, now).path == j.path
        },
{
}

/// A record carries its writer, its place, the time since the journal was opened, and that marion
/// itself saw it.
pub proof fn law_a_record_says_whose_it_is(j: JournalModel, record: JournalRecord, now: u64)
    requires
        j.is_next(record, now),
    ensures
        record.writer@ == j.writer,
        record.seq == j.seq,
        now >= j.start ==> record.mono_ns == now - j.start,
        record.provenance == Provenance::Marion,
        record.src_seq is None,
{
}

/// Every refused permission is recorded, each once and in order.
pub proof fn law_every_denial_is_recorded(
    agent: Seq<char>,
    tools: Seq<String>,
    reason: Seq<char>,
    i: int,
)
    requires
        0 <= i < tools.len(),
    ensures
        denials(agent, tools, reason).len() == tools.len(),
        denials(agent, tools, reason)[i] == (Fact::PermissionDenied {
            agent,
            tool: tools[i]@,
            reason,
        }),
{
}

/// Time is counted from where it is counted from: what has passed takes one from there to now, and
/// nothing has passed on a clock that went back.
pub proof fn law_time_passes_as_the_clock_says(since: u64, now: u64)
    ensures
        since <= now ==> since + elapsed(since, now) == now,
        now < since ==> elapsed(since, now) == 0,
{
}

/// A writer is named after its process first. Two runs of one process are two writers where what
/// separates them differs; when it began matters only where nothing else does.
pub proof fn law_two_runs_are_two_writers(pid: u32, a: Seq<char>, b: Seq<char>, t: u64, u: u64)
    ensures
        identity(pid, Some(a), t) == identity(pid, Some(a), u),
        identity(pid, Some(a), t) == identity(pid, Some(b), u) <==> a == b,
        identity(pid, None, t) == identity(pid, None, u) <==> t == u,
        text::decimal(pid as nat).is_prefix_of(identity(pid, Some(a), t)),
        text::decimal(pid as nat).is_prefix_of(identity(pid, None, t)),
{
    let p = text::decimal(pid as nat) + "-"@;
    let n = p.len() as int;
    text::law_a_number_reads_back(t as nat);
    text::law_a_number_reads_back(u as nat);
    let x = "no-entropy-"@ + text::decimal(t as nat);
    let y = "no-entropy-"@ + text::decimal(u as nat);
    let k = "no-entropy-"@.len() as int;
    assert((p + a).subrange(n, (p + a).len() as int) =~= a);
    assert((p + b).subrange(n, (p + b).len() as int) =~= b);
    assert((p + x).subrange(n, (p + x).len() as int) =~= x);
    assert((p + y).subrange(n, (p + y).len() as int) =~= y);
    assert(x.subrange(k, x.len() as int) =~= text::decimal(t as nat));
    assert(y.subrange(k, y.len() as int) =~= text::decimal(u as nat));
}

/// An error is told in the words it came with; what tore a record is told by how much of it was
/// written, and of how much.
pub proof fn law_an_error_is_told_in_its_own_words(e: JournalError)
    ensures
        e is Io ==> (e->Io_0)@.is_suffix_of(e.sentence()),
        e is Encode ==> e.sentence() == (e->Encode_0)@,
        e is TornWrite ==> e.sentence() == TORN.0@ + text::decimal(e->written as nat) + TORN.1@
            + text::decimal(e->len as nat) + TORN.2@,
{
    if e is Io {
        let why = (e->Io_0)@;
        let s = e.sentence();
        assert(s.subrange(s.len() - why.len(), s.len() as int) =~= why);
    }
}

/// A file has one journal, however its path is spelled, and every open journal is its own path's.
pub proof fn law_a_file_has_one_journal(
    s: JournalsModel,
    i: int,
    j: int,
    p: Seq<char>,
    q: Seq<char>,
)
    requires
        s.one_writer_each(),
        paths::components(p) == paths::components(q),
    ensures
        s.is_for(i, p) <==> s.is_for(i, q),
        s.is_for(i, p) && s.is_for(j, q) ==> i == j,
        0 <= i < s.open.len() ==> s.is_for(i, s.open[i].path),
        s.is_for(i, p) ==> s.writer == Some(s.open[i].writer),
{
    if i < j {
        assert(s.is_for(i, p) && s.is_for(j, q) ==> paths::components(s.open[i].path)
            == paths::components(s.open[j].path));
    } else if j < i {
        assert(s.is_for(i, p) && s.is_for(j, q) ==> paths::components(s.open[j].path)
            == paths::components(s.open[i].path));
    }
}

} // verus!
