//! The sink: what it knows of its file, when it rotates, and what a
//! rotation consists of.
//!
//! The sink does not touch the file system. It is told what happened to
//! the file and says what is to happen next; whoever holds the file
//! carries that out, step by step and in this order:
//!
//! 1. `log` says whether a record is written at all, as which line, and
//!    whether the file is rotated before.
//! 2. For a rotation, `remove_old_files` and then `compress_old_files`
//!    pick from a listing of the directory what is removed and what is
//!    compressed.
//! 3. Unless nothing is kept, `take_handle` gives the file up and its
//!    bytes are copied to the rolled path.
//! 4. The file is emptied, and `reset_handle` takes it up again.
//! 5. The line is appended, and `write_message` counts its bytes.
use vstd::prelude::*;
use vstd::string::*;
use crate::builder::{RotationPolicy, RotationRemove, RotationTime};
use crate::clock::{
    file_stamp, has_crossed_rotation_time_at, now_millis, record_stamp, spec_has_crossed,
    utc_text, valid_timestamp, FL_NM_FORMAT, TIMESTAMP_FORMAT,
};
use crate::error::Error;
use crate::level::Level;
use crate::path::{log_file_path, rolled_log_path_at, spec_log_file_path, spec_rolled_log_path};
use crate::record::{format_record, Record};
use crate::retention::{
    compress_old_files, remove_file_by_count, remove_files_by_age_at, spec_expired_mask,
    spec_is_count_removal, spec_lists, spec_plain_mask, spec_survivor_mask, DirEntry,
};
use crate::text::count_true;

verus! {

/// The open log file as the sink knows it: by the number of bytes in it.
#[derive(Debug)]
pub struct FileHandle {
    pub size: u64,
}

#[derive(Debug)]
pub struct Logger {
    pub log_level: Level,
    pub log_dir: String,
    pub log_file_name: String,
    pub log_file_extn: String,
    /// The active file while the sink holds it open.
    pub file_handle: Option<FileHandle>,
    pub rotation_policy: RotationPolicy,
    /// The deadline of the next rotation by the clock, 0 for none.
    pub next_rotation_time: i64,
    pub compress: bool,
    pub delay_compress: bool,
    pub rotation_remove: RotationRemove,
}

/// What becomes of the active file before a record is written.
#[derive(Debug)]
pub enum Rotation {
    /// It stays as it is.
    Stay,
    /// It is emptied, and nothing of it is kept.
    Discard,
    /// It is copied to `path`, gzip-framed if `compress` is set, and then
    /// emptied.
    Roll { path: String, compress: bool },
}

/// One step of a rotation. The steps are taken in the order in which
/// `Logger::rotation_steps` gives them, and the first that fails ends the
/// rotation.
#[derive(Debug, PartialEq, Eq)]
pub enum Step {
    /// Remove what `Logger::remove_old_files` picks from a listing of
    /// the log directory.
    Prune,
    /// Compress what `Logger::compress_old_files` picks from a listing
    /// of the log directory, each file to `compressed_name` of its name,
    /// and remove it.
    CompressOld,
    /// Give the active file up with `Logger::take_handle` and copy its
    /// bytes to `path`, gzip-framed if `compress` is set.
    CopyTo { path: String, compress: bool },
    /// Empty the active file and take it up again with
    /// `Logger::reset_handle`.
    Truncate,
}

/// A record that the sink admits.
#[derive(Debug)]
pub struct Entry {
    /// The line to append.
    pub message: String,
    /// What becomes of the file before.
    pub rotation: Rotation,
}

impl FileHandle {
    pub fn new(size: u64) -> (handle: Self)
        ensures
            handle.size == size,
    {
        Self { size }
    }

    /// The handle after `len` more bytes were appended.
    pub open spec fn spec_wrote(self, len: nat) -> FileHandle {
        FileHandle { size: (self.size + len) as u64 }
    }

    /// The handle after `messages` were appended one by one.
    pub open spec fn spec_wrote_all(self, messages: Seq<Seq<u8>>) -> FileHandle
        decreases messages.len(),
    {
        if messages.len() == 0 {
            self
        } else {
            self.spec_wrote_all(messages.drop_last()).spec_wrote(messages.last().len())
        }
    }

    /// Counts the bytes of a message that was appended.
    pub fn write_message(&mut self, message: &str)
        requires
            old(self).size + message.spec_bytes().len() <= u64::MAX,
        ensures
            *final(self) == old(self).spec_wrote(message.spec_bytes().len()),
    {
        let size = message.as_bytes().len() as u64;
        self.size = self.size + size;
    }
}

/// The bytes of `messages`, one message behind the other.
pub open spec fn spec_appended(messages: Seq<Seq<u8>>) -> Seq<u8>
    decreases messages.len(),
{
    if messages.len() == 0 {
        Seq::empty()
    } else {
        spec_appended(messages.drop_last()) + messages.last()
    }
}

/// A counter that starts at the length of the file keeps to it: after
/// `messages` were appended to the `content` of the file and counted one
/// by one, the counter is the length of what the file then holds, the
/// length at the start plus the bytes of all messages, and it never
/// fell. This holds as long as that length fits the counter.
pub proof fn lemma_size_counts_writes(
    handle: FileHandle,
    content: Seq<u8>,
    messages: Seq<Seq<u8>>,
)
    requires
        handle.size == content.len(),
        content.len() + spec_appended(messages).len() <= u64::MAX,
    ensures
        handle.spec_wrote_all(messages).size == (content + spec_appended(messages)).len(),
        handle.spec_wrote_all(messages).size == handle.size + spec_appended(messages).len(),
        handle.spec_wrote_all(messages).size >= handle.size,
    decreases messages.len(),
{
    if messages.len() > 0 {
        lemma_size_counts_writes(handle, content, messages.drop_last());
    }
}

impl Logger {
    /// A sink names a file.
    pub open spec fn wf(&self) -> bool {
        self.log_file_name@.len() > 0
    }

    pub open spec fn spec_file_size(&self) -> u64 {
        match self.file_handle {
            Some(handle) => handle.size,
            None => 0,
        }
    }

    /// Whether the sink rotates before it writes at `now`.
    pub open spec fn spec_should_rotate(&self, now: int) -> bool {
        self.rotation_policy.spec_is_due(
            self.spec_file_size(),
            spec_has_crossed(self.next_rotation_time as int, now),
        )
    }

    /// The deadline after the sink has looked at the clock at `now`: a
    /// deadline that has passed gives way to the next one, if the policy
    /// has one.
    pub open spec fn spec_deadline_after(&self, now: int) -> int {
        if spec_has_crossed(self.next_rotation_time as int, now)
            && self.rotation_policy.spec_next_rotation_time(now) > 0 {
            self.rotation_policy.spec_next_rotation_time(now)
        } else {
            self.next_rotation_time as int
        }
    }

    /// Whether deadlines set at `now` fit the machine's integers.
    pub open spec fn spec_can_schedule(&self, now: int) -> bool {
        now + self.rotation_policy.spec_rotation_time().spec_interval() <= i64::MAX
    }

    /// Whether rolled files are compressed as they are made.
    pub open spec fn spec_roll_compressed(&self) -> bool {
        self.compress && !self.delay_compress
    }

    /// Whether `rotation` is what becomes of the file at `now`.
    pub open spec fn spec_is_rotation(&self, now: int, rotation: Rotation) -> bool {
        if !self.spec_should_rotate(now) {
            rotation is Stay
        } else if self.rotation_remove == RotationRemove::ByCount(0) {
            rotation is Discard
        } else {
            &&& rotation matches Rotation::Roll { path, compress }
            &&& compress == self.spec_roll_compressed()
            &&& path@ == spec_rolled_log_path(
                self.log_dir@,
                self.log_file_name@,
                self.log_file_extn@,
                utc_text(now, FL_NM_FORMAT@),
                compress,
            )
        }
    }

    /// Whether the sink admits a record of `level`.
    pub fn enabled(&self, level: Level) -> (admitted: bool)
        ensures
            admitted == level.spec_passes(self.log_level),
    {
        level.passes(self.log_level)
    }

    /// The bytes in the active file, 0 while the sink does not hold it.
    pub fn file_size(&self) -> (size: u64)
        ensures
            size == self.spec_file_size(),
    {
        match &self.file_handle {
            Some(handle) => handle.size,
            None => 0,
        }
    }

    /// The path of the active file.
    pub fn active_path(&self) -> (path: String)
        requires
            self.wf(),
        ensures
            path@ == spec_log_file_path(self.log_dir@, self.log_file_name@, self.log_file_extn@),
    {
        log_file_path(
            self.log_dir.as_str(),
            self.log_file_name.as_str(),
            self.log_file_extn.as_str(),
        )
    }

    /// Whether a rotation keeps nothing of the file.
    pub fn is_zero_rotation_remove(&self) -> (zero: bool)
        ensures
            zero == (self.rotation_remove == RotationRemove::ByCount(0)),
    {
        match self.rotation_remove {
            RotationRemove::ByCount(count) => count == 0,
            _ => false,
        }
    }

    /// Sets the next deadline, counted from `now`, if the policy has one.
    pub fn update_next_rotation_time(&mut self, now: i64)
        requires
            old(self).spec_can_schedule(now as int),
        ensures
            *final(self) == (Logger {
                next_rotation_time: if old(self).rotation_policy.spec_next_rotation_time(now as int)
                    > 0 {
                    old(self).rotation_policy.spec_next_rotation_time(now as int) as i64
                } else {
                    old(self).next_rotation_time
                },
                ..*old(self)
            }),
    {
        let next_rotation_time = self.rotation_policy.next_rotation_time_at(now);
        if next_rotation_time > 0 {
            self.next_rotation_time = next_rotation_time;
        }
    }

    /// Whether the sink rotates before it writes at `now`. The answer
    /// goes by the deadline as it stood; a deadline that has passed is
    /// replaced on the way.
    pub fn should_rotate(&mut self, now: i64) -> (due: bool)
        requires
            old(self).spec_can_schedule(now as int),
        ensures
            due == old(self).spec_should_rotate(now as int),
            *final(self) == (Logger {
                next_rotation_time: old(self).spec_deadline_after(now as int) as i64,
                ..*old(self)
            }),
    {
        let next_rotation_time = self.next_rotation_time;
        let file_size = self.file_size();
        let crossed = has_crossed_rotation_time_at(next_rotation_time, now);
        if crossed {
            self.update_next_rotation_time(now);
        }
        self.rotation_policy.is_due(file_size, crossed)
    }

    /// Says what becomes of the active file before a record is written
    /// at `now`, and moves a deadline that has passed.
    pub fn rotate_log(&mut self, now: i64) -> (rotation: Rotation)
        requires
            old(self).wf(),
            valid_timestamp(now as int),
        ensures
            old(self).spec_is_rotation(now as int, rotation),
            *final(self) == (Logger {
                next_rotation_time: old(self).spec_deadline_after(now as int) as i64,
                ..*old(self)
            }),
    {
        if !self.should_rotate(now) {
            return Rotation::Stay;
        }
        if self.is_zero_rotation_remove() {
            return Rotation::Discard;
        }
        let compress = self.compress && !self.delay_compress;
        let stamp = file_stamp(now).unwrap();
        let path = rolled_log_path_at(
            self.log_dir.as_str(),
            self.log_file_name.as_str(),
            self.log_file_extn.as_str(),
            stamp.as_str(),
            compress,
        );
        Rotation::Roll { path, compress }
    }

    /// Whether a rotation compresses the rolled logs of earlier ones.
    pub open spec fn spec_compresses_old(&self) -> bool {
        self.compress && self.delay_compress
    }

    /// The steps of `rotation`, in their order: none where the file
    /// stays; else the old rolled logs are pruned first, so that the
    /// directory never holds more than the count, then compressed if
    /// compression is delayed, then the file is copied unless nothing is
    /// kept, and emptied last.
    pub open spec fn spec_rotation_steps(&self, rotation: Rotation) -> Seq<Step> {
        let passes = if self.spec_compresses_old() {
            seq![Step::Prune, Step::CompressOld]
        } else {
            seq![Step::Prune]
        };
        match rotation {
            Rotation::Stay => Seq::empty(),
            Rotation::Discard => passes.push(Step::Truncate),
            Rotation::Roll { path, compress } => passes.push(Step::CopyTo { path, compress }).push(
                Step::Truncate,
            ),
        }
    }

    /// The steps of `rotation`, in their order.
    pub fn rotation_steps(&self, rotation: &Rotation) -> (steps: Vec<Step>)
        ensures
            steps@ == self.spec_rotation_steps(*rotation),
    {
        let mut steps: Vec<Step> = Vec::new();
        match rotation {
            Rotation::Stay => {
                return steps;
            },
            _ => {},
        }
        steps.push(Step::Prune);
        if self.compress && self.delay_compress {
            steps.push(Step::CompressOld);
        }
        match rotation {
            Rotation::Roll { path, compress } => {
                steps.push(Step::CopyTo { path: path.clone(), compress: *compress });
            },
            _ => {},
        }
        steps.push(Step::Truncate);
        steps
    }

    /// How many rolled logs the pruning pass of a rotation spares: one
    /// less than the configured count, since the rotation adds one.
    pub open spec fn spec_spared(&self) -> nat {
        match self.rotation_remove {
            RotationRemove::ByCount(count) => if count > 0 {
                (count - 1) as nat
            } else {
                0
            },
            RotationRemove::ByMaxAge(_) => 0,
        }
    }

    /// Whether `doomed` is what a rotation at `now` removes from
    /// `entries`, a listing of the log directory.
    ///
    /// By count it is the oldest rolled logs, oldest first, so that one
    /// less than the configured count stay. By age it is the rolled logs
    /// older than the configured days, in the order of the listing.
    pub open spec fn spec_is_removal(
        &self,
        entries: Seq<DirEntry>,
        now: int,
        doomed: Seq<usize>,
    ) -> bool {
        match self.rotation_remove {
            RotationRemove::ByCount(_) => spec_is_count_removal(
                entries,
                self.log_file_name@,
                self.log_file_extn@,
                self.spec_spared(),
                doomed,
            ),
            RotationRemove::ByMaxAge(age) => spec_lists(
                doomed,
                spec_expired_mask(entries, self.log_file_name@, self.log_file_extn@, age, now),
            ),
        }
    }

    /// The positions in `entries`, a listing of the log directory, of
    /// what a rotation at `now` removes.
    pub fn remove_old_files_at(&self, entries: &Vec<DirEntry>, now: i64) -> (doomed: Vec<usize>)
        ensures
            self.spec_is_removal(entries@, now as int, doomed@),
    {
        match self.rotation_remove {
            RotationRemove::ByCount(count) => {
                let count = if count > 0 {
                    count as usize - 1
                } else {
                    0
                };
                remove_file_by_count(
                    entries,
                    self.log_file_name.as_str(),
                    self.log_file_extn.as_str(),
                    count,
                )
            },
            RotationRemove::ByMaxAge(age) => {
                remove_files_by_age_at(
                    entries,
                    self.log_file_name.as_str(),
                    self.log_file_extn.as_str(),
                    age,
                    now,
                )
            },
        }
    }

    /// The positions in `entries` of what a rotation removes now.
    pub fn remove_old_files(&self, entries: &Vec<DirEntry>) -> (doomed: Vec<usize>)
        ensures
            exists|now: int|
                valid_timestamp(now) && #[trigger] self.spec_is_removal(entries@, now, doomed@),
    {
        let now = now_millis();
        let doomed = self.remove_old_files_at(entries, now);
        assert(self.spec_is_removal(entries@, now as int, doomed@));
        doomed
    }

    /// The positions in `entries` of the rolled logs that a rotation
    /// compresses: none unless both compression and its delay are set,
    /// else those that are not compressed yet, in the order of the
    /// listing.
    pub fn compress_old_files(&self, entries: &Vec<DirEntry>) -> (plain: Vec<usize>)
        ensures
            if self.spec_compresses_old() {
                spec_lists(
                    plain@,
                    spec_plain_mask(entries@, self.log_file_name@, self.log_file_extn@),
                )
            } else {
                plain@.len() == 0
            },
    {
        if !self.compress || !self.delay_compress {
            return Vec::new();
        }
        compress_old_files(entries, self.log_file_name.as_str(), self.log_file_extn.as_str())
    }

    /// Gives the active file up, so that its bytes can be copied.
    pub fn take_handle(&mut self) -> (taken: Result<FileHandle, Error>)
        ensures
            match old(self).file_handle {
                Some(handle) => taken == Ok::<FileHandle, Error>(handle),
                None => taken == Err::<FileHandle, Error>(Error::NoFileHandle),
            },
            *final(self) == (Logger { file_handle: None, ..*old(self) }),
    {
        match self.file_handle.take() {
            Some(handle) => Ok(handle),
            None => Err(Error::NoFileHandle),
        }
    }

    /// Takes up the active file after it was emptied.
    pub fn reset_handle(&mut self)
        ensures
            *final(self) == (Logger {
                file_handle: Some(FileHandle { size: 0 }),
                ..*old(self)
            }),
    {
        self.file_handle = Some(FileHandle::new(0));
    }

    /// The sink after `len` more bytes were appended to its file. While
    /// it does not hold the file nothing is appended, and nothing counted.
    pub open spec fn spec_wrote(self, len: nat) -> Logger {
        Logger {
            file_handle: match self.file_handle {
                Some(handle) => Some(handle.spec_wrote(len)),
                None => None,
            },
            ..self
        }
    }

    /// The sink after `messages` were appended one by one, without a
    /// rotation in between.
    pub open spec fn spec_wrote_all(self, messages: Seq<Seq<u8>>) -> Logger
        decreases messages.len(),
    {
        if messages.len() == 0 {
            self
        } else {
            self.spec_wrote_all(messages.drop_last()).spec_wrote(messages.last().len())
        }
    }

    /// Whether counting `message` keeps the counter within the machine's
    /// integers.
    pub open spec fn spec_can_count(&self, message: Seq<u8>) -> bool {
        self.spec_file_size() + message.len() <= u64::MAX
    }

    /// Counts the bytes of a message that was appended to the active
    /// file. Says whether the sink holds the file: while it does not, no
    /// message is written.
    pub fn write_message(&mut self, message: &str) -> (written: bool)
        requires
            old(self).spec_can_count(message.spec_bytes()),
        ensures
            written == old(self).file_handle is Some,
            *final(self) == old(self).spec_wrote(message.spec_bytes().len()),
    {
        match self.file_handle.take() {
            Some(handle) => {
                let mut handle = handle;
                handle.write_message(message);
                self.file_handle = Some(handle);
                true
            },
            None => false,
        }
    }

    /// Takes a record at `now`: says whether the sink admits it and, if
    /// so, as which line it is written and what becomes of the file
    /// before. A record that does not pass changes nothing.
    pub fn log_at(&mut self, record: &Record, now: i64) -> (entry: Option<Entry>)
        requires
            old(self).wf(),
            valid_timestamp(now as int),
        ensures
            entry is Some <==> record.level.spec_passes(old(self).log_level),
            entry is None ==> *final(self) == *old(self),
            entry matches Some(e) ==> {
                &&& e.message@ == record.spec_line(utc_text(now as int, TIMESTAMP_FORMAT@))
                &&& old(self).spec_is_rotation(now as int, e.rotation)
                &&& *final(self) == (Logger {
                    next_rotation_time: old(self).spec_deadline_after(now as int) as i64,
                    ..*old(self)
                })
            },
    {
        if !self.enabled(record.level) {
            return None;
        }
        let stamp = record_stamp(now).unwrap();
        let message = format_record(stamp.as_str(), record);
        let rotation = self.rotate_log(now);
        Some(Entry { message, rotation })
    }

    /// Takes a record now.
    pub fn log(&mut self, record: &Record) -> (entry: Option<Entry>)
        requires
            old(self).wf(),
        ensures
            entry is Some <==> record.level.spec_passes(old(self).log_level),
            entry is None ==> *final(self) == *old(self),
            entry matches Some(e) ==> exists|now: int|
                #![trigger valid_timestamp(now)]
                {
                    &&& valid_timestamp(now)
                    &&& e.message@ == record.spec_line(utc_text(now, TIMESTAMP_FORMAT@))
                    &&& old(self).spec_is_rotation(now, e.rotation)
                    &&& *final(self) == (Logger {
                        next_rotation_time: old(self).spec_deadline_after(now) as i64,
                        ..*old(self)
                    })
                },
    {
        let now = now_millis();
        let entry = self.log_at(record, now);
        assert(valid_timestamp(now as int));
        entry
    }
}

/// The counter of a sink that holds its file keeps to the file: if it
/// is the length of `content` before, then after `messages` were
/// appended and counted one by one, without a rotation, it is the length
/// of `content` with all of them behind it. Nothing else of the sink
/// changes. This holds as long as that length fits the counter.
pub proof fn lemma_sink_counts_writes(logger: Logger, content: Seq<u8>, messages: Seq<Seq<u8>>)
    requires
        logger.file_handle is Some,
        logger.spec_file_size() == content.len(),
        content.len() + spec_appended(messages).len() <= u64::MAX,
    ensures
        logger.spec_wrote_all(messages) == (Logger {
            file_handle: Some(logger.file_handle->0.spec_wrote_all(messages)),
            ..logger
        }),
        logger.spec_wrote_all(messages).spec_file_size() == (content + spec_appended(
            messages,
        )).len(),
        logger.spec_wrote_all(messages).spec_file_size() >= logger.spec_file_size(),
    decreases messages.len(),
{
    lemma_size_counts_writes(logger.file_handle->0, content, messages);
    if messages.len() > 0 {
        lemma_sink_counts_writes(logger, content, messages.drop_last());
        lemma_size_counts_writes(logger.file_handle->0, content, messages.drop_last());
    }
}

/// A sink that keeps `count` rolled logs, `count` at least 1, has at
/// most `count` of them after a rotation, however many it had before:
/// the pruning pass leaves fewer than `count`, and the rotation adds one.
pub proof fn lemma_rotation_keeps_count(
    logger: Logger,
    count: u32,
    entries: Seq<DirEntry>,
    now: int,
    doomed: Seq<usize>,
)
    requires
        count >= 1,
        logger.rotation_remove == RotationRemove::ByCount(count),
        logger.spec_is_removal(entries, now, doomed),
    ensures
        count_true(
            spec_survivor_mask(entries, logger.log_file_name@, logger.log_file_extn@, doomed),
        ) + 1 <= count,
{
}

/// A sink that keeps no rolled logs never makes one: its rotations only
/// empty the file, and they leave no rolled log behind.
pub proof fn lemma_zero_count_never_rolls(
    logger: Logger,
    now: int,
    rotation: Rotation,
    entries: Seq<DirEntry>,
    doomed: Seq<usize>,
)
    requires
        logger.rotation_remove == RotationRemove::ByCount(0),
        logger.spec_is_rotation(now, rotation),
        logger.spec_is_removal(entries, now, doomed),
    ensures
        !(rotation is Roll),
        forall|i: int|
            0 <= i < logger.spec_rotation_steps(rotation).len() ==> !(
            #[trigger] logger.spec_rotation_steps(rotation)[i] is CopyTo),
        count_true(
            spec_survivor_mask(entries, logger.log_file_name@, logger.log_file_extn@, doomed),
        ) == 0,
{
}

/// A deadline is 0, which stands for none, or lies after the moment at
/// which it was set, and so does the deadline of a sink that has just
/// replaced one that had passed.
pub proof fn lemma_deadline_ahead(logger: Logger, now: int)
    ensures
        logger.rotation_policy.spec_next_rotation_time(now) == 0
            || logger.rotation_policy.spec_next_rotation_time(now) > now,
        spec_has_crossed(logger.next_rotation_time as int, now)
            && logger.rotation_policy.spec_rotation_time() != RotationTime::Never
            ==> logger.spec_deadline_after(now) > now,
{
}

} // verus!
