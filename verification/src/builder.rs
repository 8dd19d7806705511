//! The configuration of a sink: when it rotates, what it keeps, and the
//! builder that gathers both.
use vstd::prelude::*;
use crate::clock::{
    now_millis, valid_timestamp, FileAge, DAY_AS_MILLI_SEC, HOUR_AS_MILLI_SEC, MIN_AS_MILLI_SEC,
    MONTH_AS_MILLI_SEC, WEEK_AS_MILLI_SEC, YEAR_AS_MILLI_SEC,
};
use crate::error::Error;
use crate::level::Level;
use crate::logger::Logger;
use crate::path::{spec_split, split_file_path};

verus! {

pub type Size = u64;

/// How often a sink rotates by the clock. A month is 30 days and a year
/// 365.
#[derive(Debug, Clone, Copy, PartialEq, Eq, Structural)]
pub enum RotationTime {
    Minutely,
    Hourly,
    Daily,
    Weekly,
    Monthly,
    Yearly,
    Never,
}

/// When a sink rotates.
#[derive(Debug, Clone, Copy, PartialEq, Eq, Structural)]
pub enum RotationPolicy {
    /// When the file has reached the size.
    MaxSizeOnly(Size),
    /// When the file has reached the size or the deadline has passed.
    MaxSizeOrRotationTime(Size, RotationTime),
    /// When the file has reached the size and the deadline has passed.
    MinSizeAndRotationTime(Size, RotationTime),
    /// When the deadline has passed.
    RotationTimeOnly(RotationTime),
}

/// Which rolled files a sink removes.
#[derive(Debug, Clone, Copy, PartialEq, Eq, Structural)]
pub enum RotationRemove {
    /// Those older than the number of days.
    ByMaxAge(FileAge),
    /// All but the newest ones, as many as the count. With a count of 0
    /// no file is rolled at all.
    ByCount(u32),
}

/// Stands where a builder has no path yet.
pub struct NoFilePath;

/// Stands where a builder has no maximum size.
pub struct NoMaxSize;

/// Stands where a builder has no minimum size.
pub struct NoMinSize;

/// What may stand where a builder holds a size: a size, or something
/// that is none.
pub trait SizeSlot {
    spec fn spec_size(&self) -> Option<Size>;

    fn size(&self) -> (size: Option<Size>)
        ensures
            size == self.spec_size(),
    ;
}

impl SizeSlot for Size {
    open spec fn spec_size(&self) -> Option<Size> {
        Some(*self)
    }

    fn size(&self) -> (size: Option<Size>) {
        Some(*self)
    }
}

impl SizeSlot for NoMaxSize {
    open spec fn spec_size(&self) -> Option<Size> {
        None
    }

    fn size(&self) -> (size: Option<Size>) {
        None
    }
}

impl SizeSlot for NoMinSize {
    open spec fn spec_size(&self) -> Option<Size> {
        None
    }

    fn size(&self) -> (size: Option<Size>) {
        None
    }
}

/// A text is no size.
impl SizeSlot for &str {
    open spec fn spec_size(&self) -> Option<Size> {
        None
    }

    fn size(&self) -> (size: Option<Size>) {
        None
    }
}

/// A signed number is no size.
impl SizeSlot for i32 {
    open spec fn spec_size(&self) -> Option<Size> {
        None
    }

    fn size(&self) -> (size: Option<Size>) {
        None
    }
}

/// The size that `s` holds, if it is one.
pub fn get_size<T: SizeSlot>(s: &T) -> (size: Option<Size>)
    ensures
        size == s.spec_size(),
{
    s.size()
}

#[derive(Debug)]
pub struct Builder<T, U, V> {
    pub log_level: Level,
    pub file_path: T,
    pub rotation_time: RotationTime,
    pub max_size: U,
    pub min_size: V,
    pub compress: bool,
    pub delay_compress: bool,
    pub rotation_remove: RotationRemove,
}

impl RotationTime {
    /// The length of the interval in milliseconds, 0 for `Never`.
    pub open spec fn spec_interval(self) -> int {
        match self {
            RotationTime::Minutely => MIN_AS_MILLI_SEC as int,
            RotationTime::Hourly => HOUR_AS_MILLI_SEC as int,
            RotationTime::Daily => DAY_AS_MILLI_SEC as int,
            RotationTime::Weekly => WEEK_AS_MILLI_SEC as int,
            RotationTime::Monthly => MONTH_AS_MILLI_SEC as int,
            RotationTime::Yearly => YEAR_AS_MILLI_SEC as int,
            RotationTime::Never => 0,
        }
    }

    /// The deadline set at `now`: one interval later, or 0, which stands
    /// for none.
    pub open spec fn spec_next_rotation_time(self, now: int) -> int {
        if self == RotationTime::Never {
            0
        } else {
            now + self.spec_interval()
        }
    }

    /// The deadline set at `now`.
    pub fn next_rotation_time_at(&self, now: i64) -> (next: i64)
        requires
            now + self.spec_interval() <= i64::MAX,
        ensures
            next == self.spec_next_rotation_time(now as int),
            *self != RotationTime::Never ==> next > now,
    {
        match self {
            RotationTime::Minutely => now + MIN_AS_MILLI_SEC,
            RotationTime::Hourly => now + HOUR_AS_MILLI_SEC,
            RotationTime::Daily => now + DAY_AS_MILLI_SEC,
            RotationTime::Weekly => now + WEEK_AS_MILLI_SEC,
            RotationTime::Monthly => now + MONTH_AS_MILLI_SEC,
            RotationTime::Yearly => now + YEAR_AS_MILLI_SEC,
            RotationTime::Never => 0,
        }
    }

    /// The deadline set now.
    pub fn next_rotation_time(&self) -> (next: i64)
        ensures
            exists|now: int|
                valid_timestamp(now) && next == #[trigger] self.spec_next_rotation_time(now),
    {
        let now = now_millis();
        let next = self.next_rotation_time_at(now);
        assert(next == self.spec_next_rotation_time(now as int));
        next
    }
}

impl RotationPolicy {
    /// The interval by which the policy rotates, `Never` where it goes
    /// by size alone.
    pub open spec fn spec_rotation_time(self) -> RotationTime {
        match self {
            RotationPolicy::MaxSizeOnly(_) => RotationTime::Never,
            RotationPolicy::MaxSizeOrRotationTime(_, rt) => rt,
            RotationPolicy::MinSizeAndRotationTime(_, rt) => rt,
            RotationPolicy::RotationTimeOnly(rt) => rt,
        }
    }

    /// The deadline set at `now`, 0 where there is none.
    pub open spec fn spec_next_rotation_time(self, now: int) -> int {
        self.spec_rotation_time().spec_next_rotation_time(now)
    }

    /// Whether a file of `file_size` bytes is due for rotation, `crossed`
    /// telling whether its deadline has passed.
    pub open spec fn spec_is_due(self, file_size: Size, crossed: bool) -> bool {
        match self {
            RotationPolicy::MaxSizeOnly(size) => file_size >= size,
            RotationPolicy::MaxSizeOrRotationTime(size, _) => crossed || file_size >= size,
            RotationPolicy::MinSizeAndRotationTime(size, _) => crossed && file_size >= size,
            RotationPolicy::RotationTimeOnly(_) => crossed,
        }
    }

    /// Whether a file of `file_size` bytes is due for rotation.
    pub fn is_due(&self, file_size: Size, crossed: bool) -> (due: bool)
        ensures
            due == self.spec_is_due(file_size, crossed),
    {
        match self {
            RotationPolicy::MaxSizeOnly(size) => file_size >= *size,
            RotationPolicy::MaxSizeOrRotationTime(size, _) => crossed || file_size >= *size,
            RotationPolicy::MinSizeAndRotationTime(size, _) => crossed && file_size >= *size,
            RotationPolicy::RotationTimeOnly(_) => crossed,
        }
    }

    /// The deadline set at `now`.
    pub fn next_rotation_time_at(&self, now: i64) -> (next: i64)
        requires
            now + self.spec_rotation_time().spec_interval() <= i64::MAX,
        ensures
            next == self.spec_next_rotation_time(now as int),
            next == 0 || next > now,
    {
        match self {
            RotationPolicy::MaxSizeOrRotationTime(_, rt) => rt.next_rotation_time_at(now),
            RotationPolicy::MinSizeAndRotationTime(_, rt) => rt.next_rotation_time_at(now),
            RotationPolicy::RotationTimeOnly(rt) => rt.next_rotation_time_at(now),
            _ => 0,
        }
    }

    /// The deadline set now.
    pub fn next_rotation_time(&self) -> (next: i64)
        ensures
            exists|now: int|
                valid_timestamp(now) && next == #[trigger] self.spec_next_rotation_time(now),
    {
        let now = now_millis();
        let next = self.next_rotation_time_at(now);
        assert(next == self.spec_next_rotation_time(now as int));
        next
    }
}

impl<T, U, V> Builder<T, U, V> {
    pub fn log_level(self, log_level: Level) -> (builder: Self)
        ensures
            builder == (Builder { log_level, ..self }),
    {
        let mut builder = self;
        builder.log_level = log_level;
        builder
    }

    pub fn minutely(self) -> (builder: Self)
        ensures
            builder == (Builder { rotation_time: RotationTime::Minutely, ..self }),
    {
        let mut builder = self;
        builder.rotation_time = RotationTime::Minutely;
        builder
    }

    pub fn hourly(self) -> (builder: Self)
        ensures
            builder == (Builder { rotation_time: RotationTime::Hourly, ..self }),
    {
        let mut builder = self;
        builder.rotation_time = RotationTime::Hourly;
        builder
    }

    pub fn daily(self) -> (builder: Self)
        ensures
            builder == (Builder { rotation_time: RotationTime::Daily, ..self }),
    {
        let mut builder = self;
        builder.rotation_time = RotationTime::Daily;
        builder
    }

    pub fn weekly(self) -> (builder: Self)
        ensures
            builder == (Builder { rotation_time: RotationTime::Weekly, ..self }),
    {
        let mut builder = self;
        builder.rotation_time = RotationTime::Weekly;
        builder
    }

    pub fn monthly(self) -> (builder: Self)
        ensures
            builder == (Builder { rotation_time: RotationTime::Monthly, ..self }),
    {
        let mut builder = self;
        builder.rotation_time = RotationTime::Monthly;
        builder
    }

    pub fn yearly(self) -> (builder: Self)
        ensures
            builder == (Builder { rotation_time: RotationTime::Yearly, ..self }),
    {
        let mut builder = self;
        builder.rotation_time = RotationTime::Yearly;
        builder
    }

    pub fn compress(self, compress: bool) -> (builder: Self)
        ensures
            builder == (Builder { compress, ..self }),
    {
        let mut builder = self;
        builder.compress = compress;
        builder
    }

    pub fn delay_compress(self, delay_compress: bool) -> (builder: Self)
        ensures
            builder == (Builder { delay_compress, ..self }),
    {
        let mut builder = self;
        builder.delay_compress = delay_compress;
        builder
    }

    /// Keeps the newest `count` rolled files; with 0 none is rolled.
    pub fn rotation_count(self, count: u32) -> (builder: Builder<T, U, V>)
        ensures
            builder == (Builder { rotation_remove: RotationRemove::ByCount(count), ..self }),
    {
        Builder {
            log_level: self.log_level,
            file_path: self.file_path,
            rotation_time: self.rotation_time,
            max_size: self.max_size,
            min_size: self.min_size,
            compress: self.compress,
            delay_compress: self.delay_compress,
            rotation_remove: RotationRemove::ByCount(count),
        }
    }

    /// Keeps the rolled files that are at most `age` days old.
    pub fn max_age(self, age: FileAge) -> (builder: Builder<T, U, V>)
        ensures
            builder == (Builder { rotation_remove: RotationRemove::ByMaxAge(age), ..self }),
    {
        Builder {
            log_level: self.log_level,
            file_path: self.file_path,
            rotation_time: self.rotation_time,
            max_size: self.max_size,
            min_size: self.min_size,
            compress: self.compress,
            delay_compress: self.delay_compress,
            rotation_remove: RotationRemove::ByMaxAge(age),
        }
    }
}

impl<T> Builder<T, NoMaxSize, NoMinSize> {
    /// Rotates once the file has reached `max_size` bytes. A builder
    /// takes either this size or a minimum, never both.
    pub fn max_size(self, max_size: Size) -> (builder: Builder<T, Size, NoMinSize>)
        ensures
            builder == (Builder {
                log_level: self.log_level,
                file_path: self.file_path,
                rotation_time: self.rotation_time,
                max_size,
                min_size: self.min_size,
                compress: self.compress,
                delay_compress: self.delay_compress,
                rotation_remove: self.rotation_remove,
            }),
    {
        Builder {
            log_level: self.log_level,
            file_path: self.file_path,
            rotation_time: self.rotation_time,
            max_size,
            min_size: self.min_size,
            compress: self.compress,
            delay_compress: self.delay_compress,
            rotation_remove: self.rotation_remove,
        }
    }

    /// Rotates by the clock, and only once the file has reached
    /// `min_size` bytes.
    pub fn min_size(self, min_size: Size) -> (builder: Builder<T, NoMaxSize, Size>)
        ensures
            builder == (Builder {
                log_level: self.log_level,
                file_path: self.file_path,
                rotation_time: self.rotation_time,
                max_size: self.max_size,
                min_size,
                compress: self.compress,
                delay_compress: self.delay_compress,
                rotation_remove: self.rotation_remove,
            }),
    {
        Builder {
            log_level: self.log_level,
            file_path: self.file_path,
            rotation_time: self.rotation_time,
            max_size: self.max_size,
            min_size,
            compress: self.compress,
            delay_compress: self.delay_compress,
            rotation_remove: self.rotation_remove,
        }
    }
}

impl<U, V> Builder<NoFilePath, U, V> {
    /// Names the active log file.
    pub fn file_path(self, file_path: &str) -> (builder: Builder<String, U, V>)
        ensures
            builder.file_path@ == file_path@,
            builder.log_level == self.log_level,
            builder.rotation_time == self.rotation_time,
            builder.max_size == self.max_size,
            builder.min_size == self.min_size,
            builder.compress == self.compress,
            builder.delay_compress == self.delay_compress,
            builder.rotation_remove == self.rotation_remove,
    {
        Builder {
            log_level: self.log_level,
            file_path: file_path.to_owned(),
            rotation_time: self.rotation_time,
            max_size: self.max_size,
            min_size: self.min_size,
            compress: self.compress,
            delay_compress: self.delay_compress,
            rotation_remove: self.rotation_remove,
        }
    }
}

/// The policy that sizes and interval amount to: a maximum size goes
/// before a minimum, and without an interval a maximum stands alone.
pub open spec fn spec_rotation_policy(
    max_size: Option<Size>,
    min_size: Option<Size>,
    rotation_time: RotationTime,
) -> RotationPolicy {
    match (max_size, min_size) {
        (Some(max), _) => if rotation_time == RotationTime::Never {
            RotationPolicy::MaxSizeOnly(max)
        } else {
            RotationPolicy::MaxSizeOrRotationTime(max, rotation_time)
        },
        (None, Some(min)) => RotationPolicy::MinSizeAndRotationTime(min, rotation_time),
        (None, None) => RotationPolicy::RotationTimeOnly(rotation_time),
    }
}

impl<U: SizeSlot, V: SizeSlot> Builder<String, U, V> {
    /// The policy that the builder's sizes and interval amount to.
    pub fn rotation_policy(&self) -> (policy: RotationPolicy)
        ensures
            policy == spec_rotation_policy(
                self.max_size.spec_size(),
                self.min_size.spec_size(),
                self.rotation_time,
            ),
    {
        let rotation_time = self.rotation_time;
        let max_size = get_size(&self.max_size);
        let min_size = get_size(&self.min_size);
        match (max_size, min_size, rotation_time) {
            (Some(max_size), _, RotationTime::Never) => RotationPolicy::MaxSizeOnly(max_size),
            (Some(max_size), _, _) => {
                RotationPolicy::MaxSizeOrRotationTime(max_size, rotation_time)
            },
            (_, Some(min_size), _) => {
                RotationPolicy::MinSizeAndRotationTime(min_size, rotation_time)
            },
            _ => RotationPolicy::RotationTimeOnly(rotation_time),
        }
    }

    /// Whether `logger` is the sink that this builder makes at `now`: it
    /// has the builder's settings, the parts of its path, the policy and
    /// the first deadline, and does not hold its file yet.
    pub open spec fn spec_builds(&self, now: int, logger: Logger) -> bool {
        &&& logger.log_level == self.log_level
        &&& (logger.log_dir@, logger.log_file_name@, logger.log_file_extn@) == spec_split(
            self.file_path@,
        )
        &&& logger.file_handle is None
        &&& logger.rotation_policy == spec_rotation_policy(
            self.max_size.spec_size(),
            self.min_size.spec_size(),
            self.rotation_time,
        )
        &&& logger.next_rotation_time == self.rotation_time.spec_next_rotation_time(now)
        &&& logger.compress == self.compress
        &&& logger.delay_compress == self.delay_compress
        &&& logger.rotation_remove == self.rotation_remove
    }

    /// What refuses the builder's path, if anything does: that it is
    /// empty, or that it names no file.
    pub open spec fn spec_refusal(&self) -> Option<Error> {
        if self.file_path@.len() == 0 {
            Some(Error::EmptyFilePath)
        } else if spec_split(self.file_path@).1.len() == 0 {
            Some(Error::EmptyFileName)
        } else {
            None
        }
    }

    /// Makes the sink at `now`, or says what refuses the path.
    pub fn finish_at(self, now: i64) -> (made: Result<Logger, Error>)
        requires
            now + self.rotation_time.spec_interval() <= i64::MAX,
        ensures
            match made {
                Ok(logger) => self.spec_refusal() is None && self.spec_builds(now as int, logger)
                    && logger.wf(),
                Err(e) => self.spec_refusal() == Some(e),
            },
    {
        if self.file_path.as_str().is_empty() {
            return Err(Error::EmptyFilePath);
        }
        let (dir, file_name, file_extn) = split_file_path(self.file_path.as_str());
        if file_name.as_str().is_empty() {
            return Err(Error::EmptyFileName);
        }
        let next_rotation_time = self.rotation_time.next_rotation_time_at(now);
        let rotation_policy = self.rotation_policy();
        Ok(
            Logger {
                log_level: self.log_level,
                log_dir: dir,
                log_file_name: file_name,
                log_file_extn: file_extn,
                file_handle: None,
                rotation_policy,
                next_rotation_time,
                compress: self.compress,
                delay_compress: self.delay_compress,
                rotation_remove: self.rotation_remove,
            },
        )
    }

    /// Makes the sink now, or says what refuses the path.
    pub fn finish(self) -> (made: Result<Logger, Error>)
        ensures
            match made {
                Ok(logger) => self.spec_refusal() is None && logger.wf() && exists|now: int|
                    valid_timestamp(now) && #[trigger] self.spec_builds(now, logger),
                Err(e) => self.spec_refusal() == Some(e),
            },
    {
        let now = now_millis();
        let ghost builder = self;
        let made = self.finish_at(now);
        proof {
            if made is Ok {
                assert(builder.spec_builds(now as int, made->Ok_0));
            }
        }
        made
    }
}

} // verus!
