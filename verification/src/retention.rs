//! Which files of a directory are rolled logs, and which of them a
//! rotation removes or compresses.
//!
//! A rolled log of the sink `stem.ext` is a regular file whose name
//! starts with `stem`, is not the name of the active file, and has the
//! extension `ext` or `gz`.
use vstd::prelude::*;
use crate::clock::{
    get_file_age_at, max_age, now_millis, spec_file_age, spec_max_age, valid_timestamp, FileAge,
};
use crate::path::{active_name, spec_active_name, spec_extension, spec_rolled_name};
use crate::text::{
    count_true, find_last, has_prefix, lemma_count_true_clear, lemma_count_true_none,
    lemma_last_index_is, lemma_last_index_of, range_equals, same_chars, starts_with, to_chars,
};

verus! {

/// One entry of a directory listing.
#[derive(Debug)]
pub struct DirEntry {
    /// The name of the entry within its directory.
    pub name: String,
    /// Whether the entry is a regular file.
    pub is_file: bool,
    /// When the entry was created, in milliseconds since the epoch.
    pub created: i64,
}

/// Whether `name` is the name of a rolled log of the sink `stem.ext`.
pub open spec fn spec_is_rolled(name: Seq<char>, stem: Seq<char>, ext: Seq<char>) -> bool {
    &&& has_prefix(name, stem)
    &&& name != spec_active_name(stem, ext)
    &&& (spec_extension(name) == ext || spec_extension(name) == seq!['g', 'z'])
}

/// Whether `name` is the name of a rolled log that is not compressed yet.
pub open spec fn spec_is_plain_rolled(name: Seq<char>, stem: Seq<char>, ext: Seq<char>) -> bool {
    &&& has_prefix(name, stem)
    &&& name != spec_active_name(stem, ext)
    &&& spec_extension(name) == ext
}

impl DirEntry {
    /// Whether the entry is a rolled log of the sink `stem.ext`.
    pub open spec fn spec_is_artifact(self, stem: Seq<char>, ext: Seq<char>) -> bool {
        self.is_file && spec_is_rolled(self.name@, stem, ext)
    }

    /// Whether the entry is a rolled log that is not compressed yet.
    pub open spec fn spec_is_plain_artifact(self, stem: Seq<char>, ext: Seq<char>) -> bool {
        self.is_file && spec_is_plain_rolled(self.name@, stem, ext)
    }

    /// Whether the entry is a rolled log older at `now` than `age` days.
    pub open spec fn spec_is_expired(
        self,
        stem: Seq<char>,
        ext: Seq<char>,
        age: FileAge,
        now: int,
    ) -> bool {
        self.spec_is_artifact(stem, ext) && spec_file_age(self.is_file, self.created as int, now)
            > spec_max_age(age)
    }
}

/// For each entry, whether it is a rolled log.
pub open spec fn spec_artifact_mask(entries: Seq<DirEntry>, stem: Seq<char>, ext: Seq<char>) -> Seq<
    bool,
> {
    Seq::new(entries.len(), |i: int| entries[i].spec_is_artifact(stem, ext))
}

/// For each entry, whether it is a rolled log older at `now` than `age`
/// days.
pub open spec fn spec_expired_mask(
    entries: Seq<DirEntry>,
    stem: Seq<char>,
    ext: Seq<char>,
    age: FileAge,
    now: int,
) -> Seq<bool> {
    Seq::new(entries.len(), |i: int| entries[i].spec_is_expired(stem, ext, age, now))
}

/// For each entry, whether it is a rolled log that is not compressed yet.
pub open spec fn spec_plain_mask(entries: Seq<DirEntry>, stem: Seq<char>, ext: Seq<char>) -> Seq<
    bool,
> {
    Seq::new(entries.len(), |i: int| entries[i].spec_is_plain_artifact(stem, ext))
}

/// For each entry, whether it is a rolled log that is still there once
/// the entries at `doomed` are gone.
pub open spec fn spec_survivor_mask(
    entries: Seq<DirEntry>,
    stem: Seq<char>,
    ext: Seq<char>,
    doomed: Seq<usize>,
) -> Seq<bool> {
    Seq::new(
        entries.len(),
        |i: int| entries[i].spec_is_artifact(stem, ext) && !doomed.contains(i as usize),
    )
}

/// Whether `set` lists the positions at which `mask` is set, all of them
/// and in rising order.
pub open spec fn spec_lists(set: Seq<usize>, mask: Seq<bool>) -> bool {
    &&& forall|i: int, j: int| 0 <= i < j < set.len() ==> set[i] < set[j]
    &&& forall|k: int| 0 <= k < set.len() ==> set[k] < mask.len()
    &&& forall|i: int| 0 <= i < mask.len() ==> (set.contains(i as usize) <==> #[trigger] mask[i])
}

/// By how many `total` files exceed the `count` that may stay.
pub open spec fn spec_excess(total: nat, count: nat) -> nat {
    if total > count {
        (total - count) as nat
    } else {
        0
    }
}

/// Whether `doomed` is what goes from `entries` so that the newest
/// `count` rolled logs stay: positions of rolled logs, each once and the
/// oldest first, as many as exceed `count`, and none of them newer than a
/// rolled log that stays.
pub open spec fn spec_is_count_removal(
    entries: Seq<DirEntry>,
    stem: Seq<char>,
    ext: Seq<char>,
    count: nat,
    doomed: Seq<usize>,
) -> bool {
    &&& doomed.len() == spec_excess(spec_artifact_count(entries, stem, ext), count)
    &&& count_true(spec_survivor_mask(entries, stem, ext, doomed)) + doomed.len()
        == spec_artifact_count(entries, stem, ext)
    &&& forall|k: int|
        0 <= k < doomed.len() ==> doomed[k] < entries.len() && entries[doomed[k] as int].spec_is_artifact(
            stem,
            ext,
        )
    &&& forall|i: int, j: int| 0 <= i < j < doomed.len() ==> doomed[i] != doomed[j]
    &&& forall|i: int, j: int|
        0 <= i < j < doomed.len() ==> entries[doomed[i] as int].created
            <= entries[doomed[j] as int].created
    &&& forall|k: int, m: int|
        #![trigger doomed[k], entries[m]]
        0 <= k < doomed.len() && 0 <= m < entries.len() && entries[m].spec_is_artifact(stem, ext)
            && !doomed.contains(m as usize) ==> entries[doomed[k] as int].created
            <= entries[m].created
}

/// The number of rolled logs among `entries`.
pub open spec fn spec_artifact_count(entries: Seq<DirEntry>, stem: Seq<char>, ext: Seq<char>) -> nat {
    count_true(spec_artifact_mask(entries, stem, ext))
}

/// Where the extension of the name `v` starts; it reaches to the end.
fn extension_start(v: &Vec<char>) -> (start: usize)
    ensures
        start <= v@.len(),
        spec_extension(v@) == v@.subrange(start as int, v@.len() as int),
{
    let n = v.len();
    proof {
        assert(v@.subrange(0, n as int) =~= v@);
        lemma_last_index_of(v@, '.');
    }
    match find_last(v, 0, n, '.') {
        Some(d) => {
            if d == 0 {
                proof {
                    assert(v@.subrange(n as int, n as int) =~= Seq::<char>::empty());
                }
                n
            } else {
                proof {
                    assert(v@.skip(d + 1) =~= v@.subrange(d + 1, n as int));
                }
                d + 1
            }
        },
        None => {
            proof {
                assert(v@.subrange(n as int, n as int) =~= Seq::<char>::empty());
            }
            n
        },
    }
}

/// The characters by which rolled logs of one sink are told.
struct Marks {
    stem: Vec<char>,
    ext: Vec<char>,
    active: Vec<char>,
    gz: Vec<char>,
}

impl Marks {
    spec fn stands_for(self, stem: Seq<char>, ext: Seq<char>) -> bool {
        &&& self.stem@ == stem
        &&& self.ext@ == ext
        &&& self.active@ == spec_active_name(stem, ext)
        &&& self.gz@ == seq!['g', 'z']
    }

    fn new(file_name: &str, file_extn: &str) -> (marks: Marks)
        ensures
            marks.stands_for(file_name@, file_extn@),
    {
        let active = active_name(file_name, file_extn);
        let mut gz: Vec<char> = Vec::new();
        gz.push('g');
        gz.push('z');
        proof {
            assert(gz@ =~= seq!['g', 'z']);
        }
        Marks {
            stem: to_chars(file_name),
            ext: to_chars(file_extn),
            active: to_chars(active.as_str()),
            gz,
        }
    }

    fn is_rolled(&self, name: &str, Ghost(stem): Ghost<Seq<char>>, Ghost(ext): Ghost<Seq<char>>) -> (rolled: bool)
        requires
            self.stands_for(stem, ext),
        ensures
            rolled == spec_is_rolled(name@, stem, ext),
    {
        let v = to_chars(name);
        if !starts_with(&v, &self.stem) || same_chars(&v, &self.active) {
            return false;
        }
        let start = extension_start(&v);
        range_equals(&v, start, v.len(), &self.ext) || range_equals(&v, start, v.len(), &self.gz)
    }

    fn is_plain_rolled(&self, name: &str, Ghost(stem): Ghost<Seq<char>>, Ghost(ext): Ghost<Seq<char>>) -> (rolled: bool)
        requires
            self.stands_for(stem, ext),
        ensures
            rolled == spec_is_plain_rolled(name@, stem, ext),
    {
        let v = to_chars(name);
        if !starts_with(&v, &self.stem) || same_chars(&v, &self.active) {
            return false;
        }
        let start = extension_start(&v);
        range_equals(&v, start, v.len(), &self.ext)
    }
}

/// Whether `name` is the name of a rolled log of the sink
/// `file_name.file_extn`.
pub fn is_rolled(name: &str, file_name: &str, file_extn: &str) -> (rolled: bool)
    ensures
        rolled == spec_is_rolled(name@, file_name@, file_extn@),
{
    let marks = Marks::new(file_name, file_extn);
    marks.is_rolled(name, Ghost(file_name@), Ghost(file_extn@))
}

/// The name under which the compressed copy of the file `name` is kept.
pub fn compressed_name(name: &str) -> (compressed: String)
    ensures
        compressed@ == name@ + seq!['.', 'g', 'z'],
{
    proof {
        reveal_strlit(".gz");
        assert(".gz"@ =~= seq!['.', 'g', 'z']);
    }
    let mut compressed = name.to_owned();
    compressed.append(".gz");
    compressed
}

/// The positions at which `mask` is set, in rising order.
fn positions(mask: &Vec<bool>) -> (set: Vec<usize>)
    ensures
        spec_lists(set@, mask@),
{
    let mut set: Vec<usize> = Vec::new();
    let mut i: usize = 0;
    while i < mask.len()
        invariant
            i <= mask@.len(),
            forall|a: int, b: int| 0 <= a < b < set@.len() ==> set@[a] < set@[b],
            forall|k: int| 0 <= k < set@.len() ==> set@[k] < i,
            forall|k: int| 0 <= k < i ==> (set@.contains(k as usize) <==> #[trigger] mask@[k]),
        decreases mask@.len() - i,
    {
        let ghost before = set@;
        if mask[i] {
            set.push(i);
        }
        proof {
            assert forall|k: int| 0 <= k < i + 1 implies (set@.contains(k as usize)
                <==> #[trigger] mask@[k]) by {
                if mask@[i as int] {
                    assert(set@ == before.push(i));
                    if k == i {
                        assert(set@[before.len() as int] == i);
                    } else {
                        if before.contains(k as usize) {
                            let m = choose|m: int| 0 <= m < before.len() && before[m] == k as usize;
                            assert(set@[m] == k as usize);
                        }
                        if set@.contains(k as usize) {
                            let m = choose|m: int| 0 <= m < set@.len() && set@[m] == k as usize;
                            assert(before[m] == k as usize);
                        }
                    }
                } else if k == i && set@.contains(k as usize) {
                    let m = choose|m: int| 0 <= m < set@.len() && set@[m] == k as usize;
                    assert(set@[m] < i);
                }
            }
        }
        i = i + 1;
    }
    set
}

/// The positions of the rolled logs among `entries` that are older at
/// `now` than `age` days, in the order of the listing.
pub fn remove_files_by_age_at(
    entries: &Vec<DirEntry>,
    file_name: &str,
    file_extn: &str,
    age: FileAge,
    now: i64,
) -> (doomed: Vec<usize>)
    ensures
        spec_lists(doomed@, spec_expired_mask(entries@, file_name@, file_extn@, age, now as int)),
{
    let marks = Marks::new(file_name, file_extn);
    let limit = max_age(age);
    let mut mask: Vec<bool> = Vec::new();
    let mut i: usize = 0;
    while i < entries.len()
        invariant
            i <= entries@.len(),
            mask@.len() == i,
            marks.stands_for(file_name@, file_extn@),
            limit == spec_max_age(age),
            forall|k: int|
                0 <= k < i ==> mask@[k] == (#[trigger] entries@[k]).spec_is_expired(
                    file_name@,
                    file_extn@,
                    age,
                    now as int,
                ),
        decreases entries@.len() - i,
    {
        let entry = &entries[i];
        let expired = entry.is_file && marks.is_rolled(
            entry.name.as_str(),
            Ghost(file_name@),
            Ghost(file_extn@),
        ) && get_file_age_at(entry.is_file, entry.created, now) > limit;
        mask.push(expired);
        i = i + 1;
    }
    proof {
        assert(mask@ =~= spec_expired_mask(entries@, file_name@, file_extn@, age, now as int));
    }
    positions(&mask)
}

/// The positions of the rolled logs among `entries` that are too old by
/// now.
pub fn remove_files_by_age(
    entries: &Vec<DirEntry>,
    file_name: &str,
    file_extn: &str,
    age: FileAge,
) -> (doomed: Vec<usize>)
    ensures
        exists|now: int|
            valid_timestamp(now) && spec_lists(
                doomed@,
                #[trigger] spec_expired_mask(entries@, file_name@, file_extn@, age, now),
            ),
{
    let now = now_millis();
    let doomed = remove_files_by_age_at(entries, file_name, file_extn, age, now);
    assert(spec_lists(
        doomed@,
        spec_expired_mask(entries@, file_name@, file_extn@, age, now as int),
    ));
    doomed
}

/// The positions of the rolled logs among `entries` that are not
/// compressed yet, in the order of the listing.
pub fn compress_old_files(entries: &Vec<DirEntry>, file_name: &str, file_extn: &str) -> (plain: Vec<
    usize,
>)
    ensures
        spec_lists(plain@, spec_plain_mask(entries@, file_name@, file_extn@)),
{
    let marks = Marks::new(file_name, file_extn);
    let mut mask: Vec<bool> = Vec::new();
    let mut i: usize = 0;
    while i < entries.len()
        invariant
            i <= entries@.len(),
            mask@.len() == i,
            marks.stands_for(file_name@, file_extn@),
            forall|k: int|
                0 <= k < i ==> mask@[k] == (#[trigger] entries@[k]).spec_is_plain_artifact(
                    file_name@,
                    file_extn@,
                ),
        decreases entries@.len() - i,
    {
        let entry = &entries[i];
        let chosen = entry.is_file && marks.is_plain_rolled(
            entry.name.as_str(),
            Ghost(file_name@),
            Ghost(file_extn@),
        );
        mask.push(chosen);
        i = i + 1;
    }
    proof {
        assert(mask@ =~= spec_plain_mask(entries@, file_name@, file_extn@));
    }
    positions(&mask)
}

/// For each entry whether it is a rolled log, and how many are.
fn artifact_mask(entries: &Vec<DirEntry>, file_name: &str, file_extn: &str) -> (found: (
    Vec<bool>,
    usize,
))
    ensures
        found.0@ == spec_artifact_mask(entries@, file_name@, file_extn@),
        found.1 == spec_artifact_count(entries@, file_name@, file_extn@),
{
    let marks = Marks::new(file_name, file_extn);
    let mut mask: Vec<bool> = Vec::new();
    let mut total: usize = 0;
    let mut i: usize = 0;
    while i < entries.len()
        invariant
            i <= entries@.len(),
            mask@.len() == i,
            total == count_true(mask@),
            total <= i,
            marks.stands_for(file_name@, file_extn@),
            forall|k: int|
                0 <= k < i ==> mask@[k] == (#[trigger] entries@[k]).spec_is_artifact(
                    file_name@,
                    file_extn@,
                ),
        decreases entries@.len() - i,
    {
        let entry = &entries[i];
        let rolled = entry.is_file && marks.is_rolled(
            entry.name.as_str(),
            Ghost(file_name@),
            Ghost(file_extn@),
        );
        proof {
            assert(mask@.push(rolled).drop_last() =~= mask@);
        }
        mask.push(rolled);
        if rolled {
            total = total + 1;
        }
        i = i + 1;
    }
    proof {
        assert(mask@ =~= spec_artifact_mask(entries@, file_name@, file_extn@));
    }
    (mask, total)
}

/// The position of an entry that was created no later than any other,
/// among those at which `mask` is set.
fn oldest(entries: &Vec<DirEntry>, mask: &Vec<bool>) -> (found: Option<usize>)
    requires
        mask@.len() == entries@.len(),
    ensures
        match found {
            Some(b) => b < entries@.len() && mask@[b as int] && forall|i: int|
                0 <= i < entries@.len() && mask@[i] ==> entries@[b as int].created
                    <= entries@[i].created,
            None => forall|i: int| 0 <= i < entries@.len() ==> !mask@[i],
        },
{
    let mut found: Option<usize> = None;
    let mut i: usize = 0;
    while i < entries.len()
        invariant
            i <= entries@.len(),
            mask@.len() == entries@.len(),
            match found {
                Some(b) => b < i && mask@[b as int] && forall|k: int|
                    0 <= k < i && mask@[k] ==> entries@[b as int].created <= entries@[k].created,
                None => forall|k: int| 0 <= k < i ==> !mask@[k],
            },
        decreases entries@.len() - i,
    {
        if mask[i] {
            found = match found {
                Some(b) => if entries[i].created < entries[b].created {
                    Some(i)
                } else {
                    Some(b)
                },
                None => Some(i),
            };
        }
        i = i + 1;
    }
    found
}

/// The positions of the rolled logs among `entries` that have to go so
/// that the newest `count` stay: the oldest ones, oldest first. Which of
/// two logs of one moment goes first, or stays, is left open.
pub fn remove_file_by_count(
    entries: &Vec<DirEntry>,
    file_name: &str,
    file_extn: &str,
    count: usize,
) -> (doomed: Vec<usize>)
    ensures
        spec_is_count_removal(entries@, file_name@, file_extn@, count as nat, doomed@),
{
    let n = entries.len();
    let (mut mask, total) = artifact_mask(entries, file_name, file_extn);
    let mut doomed: Vec<usize> = Vec::new();
    if total <= count {
        proof {
            assert(spec_survivor_mask(entries@, file_name@, file_extn@, doomed@) =~= mask@);
        }
        return doomed;
    }
    let quota = total - count;
    while doomed.len() < quota
        invariant
            n == entries@.len(),
            mask@.len() == entries@.len(),
            quota == total - count,
            count_true(mask@) + doomed@.len() == total,
            doomed@.len() <= quota,
            total == spec_artifact_count(entries@, file_name@, file_extn@),
            forall|i: int|
                0 <= i < entries@.len() ==> (#[trigger] mask@[i] <==> entries@[i].spec_is_artifact(
                    file_name@,
                    file_extn@,
                ) && !doomed@.contains(i as usize)),
            forall|k: int|
                0 <= k < doomed@.len() ==> doomed@[k] < entries@.len() && entries@[doomed@[k] as int].spec_is_artifact(
                    file_name@,
                    file_extn@,
                ),
            forall|i: int, j: int| 0 <= i < j < doomed@.len() ==> doomed@[i] != doomed@[j],
            forall|i: int, j: int|
                0 <= i < j < doomed@.len() ==> entries@[doomed@[i] as int].created
                    <= entries@[doomed@[j] as int].created,
            forall|k: int, m: int|
                #![trigger doomed@[k], mask@[m]]
                0 <= k < doomed@.len() && 0 <= m < entries@.len() && mask@[m]
                    ==> entries@[doomed@[k] as int].created <= entries@[m].created,
        decreases quota - doomed@.len(),
    {
        match oldest(entries, &mask) {
            None => {
                proof {
                    lemma_count_true_none(mask@);
                }
                return doomed;
            },
            Some(b) => {
                let ghost before = doomed@;
                let ghost mask_before = mask@;
                proof {
                    lemma_count_true_clear(mask@, b as int);
                }
                mask.set(b, false);
                doomed.push(b);
                proof {
                    assert(doomed@ == before.push(b));
                    assert(!before.contains(b));
                    assert forall|i: int| 0 <= i < entries@.len() implies (#[trigger] mask@[i]
                        <==> entries@[i].spec_is_artifact(file_name@, file_extn@)
                        && !doomed@.contains(i as usize)) by {
                        assert(mask_before[i] <==> entries@[i].spec_is_artifact(
                            file_name@,
                            file_extn@,
                        ) && !before.contains(i as usize));
                        if i == b {
                            assert(doomed@[before.len() as int] == b);
                        } else {
                            assert(mask@[i] == mask_before[i]);
                            if before.contains(i as usize) {
                                let m = choose|m: int|
                                    0 <= m < before.len() && before[m] == i as usize;
                                assert(doomed@[m] == i as usize);
                            }
                            if doomed@.contains(i as usize) {
                                let m = choose|m: int|
                                    0 <= m < doomed@.len() && doomed@[m] == i as usize;
                                assert(m != before.len());
                                assert(before[m] == i as usize);
                            }
                        }
                    }
                    assert forall|k: int, m: int|
                        #![trigger doomed@[k], mask@[m]]
                        0 <= k < doomed@.len() && 0 <= m < entries@.len()
                            && mask@[m] implies entries@[doomed@[k] as int].created
                        <= entries@[m].created by {
                        assert(mask_before[m]);
                        if k < before.len() {
                            assert(before[k] == doomed@[k]);
                        }
                    }
                    assert forall|i: int, j: int|
                        0 <= i < j < doomed@.len() implies entries@[doomed@[i] as int].created
                        <= entries@[doomed@[j] as int].created by {
                        if j == before.len() {
                            assert(before[i] == doomed@[i]);
                            assert(mask_before[b as int]);
                        } else {
                            assert(before[i] == doomed@[i] && before[j] == doomed@[j]);
                        }
                    }
                    assert forall|i: int, j: int| 0 <= i < j < doomed@.len() implies doomed@[i]
                        != doomed@[j] by {
                        if j == before.len() && doomed@[i] == b {
                            assert(before[i] == b);
                        }
                    }
                }
            },
        }
    }
    proof {
        assert forall|k: int, m: int|
            #![trigger doomed@[k], entries@[m]]
            0 <= k < doomed@.len() && 0 <= m < entries@.len() && entries@[m].spec_is_artifact(
                file_name@,
                file_extn@,
            ) && !doomed@.contains(m as usize) implies entries@[doomed@[k] as int].created
            <= entries@[m].created by {
            assert(mask@[m]);
        }
        assert(spec_survivor_mask(entries@, file_name@, file_extn@, doomed@) =~= mask@);
    }
    doomed
}

/// After a removal by count at most `count` rolled logs are left, and
/// all of them where there were no more than `count`.
pub proof fn lemma_count_removal_spares(
    entries: Seq<DirEntry>,
    stem: Seq<char>,
    ext: Seq<char>,
    count: nat,
    doomed: Seq<usize>,
)
    requires
        spec_is_count_removal(entries, stem, ext, count, doomed),
    ensures
        count_true(spec_survivor_mask(entries, stem, ext, doomed)) <= count,
        spec_artifact_count(entries, stem, ext) <= count ==> doomed.len() == 0,
{
}

/// What a rotation rolls aside is a rolled log, so that later rotations
/// find it: always when it is compressed, and else when the sink's
/// extension is not empty and holds no `.`.
pub proof fn lemma_rolled_name_is_rolled(
    stem: Seq<char>,
    ext: Seq<char>,
    stamp: Seq<char>,
    compress: bool,
)
    requires
        compress || (ext.len() > 0 && !ext.contains('.')),
    ensures
        spec_is_rolled(spec_rolled_name(stem, ext, stamp, compress), stem, ext),
{
    let name = spec_rolled_name(stem, ext, stamp, compress);
    let active = spec_active_name(stem, ext);
    assert(name.take(stem.len() as int) =~= stem);
    assert(name.len() > active.len());
    if compress {
        let dot = name.len() - 3;
        assert(name[dot] == '.' && name[dot + 1] == 'g' && name[dot + 2] == 'z');
        lemma_last_index_is(name, '.', dot);
        assert(name.skip(dot + 1) =~= seq!['g', 'z']);
    } else {
        let dot = name.len() - ext.len() - 1;
        assert(name[dot] == '.');
        assert forall|j: int| dot < j < name.len() implies name[j] != '.' by {
            if name[j] == '.' {
                assert(ext[j - dot - 1] == '.');
            }
        }
        lemma_last_index_is(name, '.', dot);
        assert(name.skip(dot + 1) =~= ext);
    }
}

/// The active file is no rolled log, so no pass removes or compresses it.
pub proof fn lemma_active_is_not_rolled(stem: Seq<char>, ext: Seq<char>)
    ensures
        !spec_is_rolled(spec_active_name(stem, ext), stem, ext),
        !spec_is_plain_rolled(spec_active_name(stem, ext), stem, ext),
{
}

} // verus!
