//! The path grammar: how a log path splits into directory, stem and
//! extension, and how the active and the rolled paths are put together.
//!
//! A path is a sequence of characters in which `/` separates segments.
//! Separators and segments `.` at its end say nothing and are skipped.
//! The file name is the last segment of what is left, unless that is
//! `..`; the root and the empty path have none. The directory is what
//! precedes the file name, again without separators and segments `.` at
//! its end, but `/` for what lies directly under the root and `.` for
//! what lies directly under a leading `.`. The extension is what follows
//! the last `.` of the file name, unless that `.` is its first character.
use vstd::prelude::*;
use vstd::string::*;
use crate::clock::{file_stamp, now_millis, utc_text, valid_timestamp, FL_NM_FORMAT};
use crate::text::{
    find_last, last_index_of, lemma_last_index_absent, lemma_last_index_is, lemma_last_index_of,
    to_chars,
};

verus! {

/// Whether `path` ends in a segment `.`.
pub open spec fn spec_ends_in_dot(path: Seq<char>) -> bool {
    path.len() > 0 && path.last() == '.' && (path.len() == 1 || path[path.len() - 2] == '/')
}

/// `path` without the separators and the segments `.` at its end.
pub open spec fn spec_trim_tail(path: Seq<char>) -> Seq<char>
    decreases path.len(),
{
    if path.len() > 0 && (path.last() == '/' || spec_ends_in_dot(path)) {
        spec_trim_tail(path.drop_last())
    } else {
        path
    }
}

/// The last segment of `path` that says something: what follows the
/// last `/` once the end of `path` is trimmed.
pub open spec fn spec_last_segment(path: Seq<char>) -> Seq<char> {
    let trimmed = spec_trim_tail(path);
    trimmed.skip(last_index_of(trimmed, '/') + 1)
}

/// The file name of `path`: its last segment, or nothing where that
/// segment is `..`.
pub open spec fn spec_file_name(path: Seq<char>) -> Seq<char> {
    let segment = spec_last_segment(path);
    if segment == seq!['.', '.'] {
        Seq::empty()
    } else {
        segment
    }
}

/// The directory part of `path`.
pub open spec fn spec_parent(path: Seq<char>) -> Seq<char> {
    let trimmed = spec_trim_tail(path);
    let slash = last_index_of(trimmed, '/');
    if slash < 0 {
        Seq::empty()
    } else {
        let dir = spec_trim_tail(trimmed.take(slash));
        if dir.len() > 0 {
            dir
        } else if trimmed[0] == '/' {
            seq!['/']
        } else {
            seq!['.']
        }
    }
}

/// The extension of a file name: what follows its last `.`, or nothing
/// where it has no `.` but a leading one.
pub open spec fn spec_extension(name: Seq<char>) -> Seq<char> {
    let dot = last_index_of(name, '.');
    if dot <= 0 {
        Seq::empty()
    } else {
        name.skip(dot + 1)
    }
}

/// The stem of a file name: the name without `.` and extension, or the
/// whole name where the extension is empty.
pub open spec fn spec_stem(name: Seq<char>) -> Seq<char> {
    let dot = last_index_of(name, '.');
    if dot <= 0 || dot == name.len() - 1 {
        name
    } else {
        name.take(dot)
    }
}

/// Directory, stem and extension of `path`.
pub open spec fn spec_split(path: Seq<char>) -> (Seq<char>, Seq<char>, Seq<char>) {
    let name = spec_file_name(path);
    (spec_parent(path), spec_stem(name), spec_extension(name))
}

/// The name of the active file: `stem.ext`, or `stem` alone.
pub open spec fn spec_active_name(stem: Seq<char>, ext: Seq<char>) -> Seq<char> {
    if ext.len() == 0 {
        stem
    } else {
        stem + seq!['.'] + ext
    }
}

/// The name of a rolled file: `stem.stamp.ext` or `stem.stamp`, with
/// `.gz` behind it when `compress` is set.
pub open spec fn spec_rolled_name(
    stem: Seq<char>,
    ext: Seq<char>,
    stamp: Seq<char>,
    compress: bool,
) -> Seq<char> {
    let plain = if ext.len() == 0 {
        stem + seq!['.'] + stamp
    } else {
        stem + seq!['.'] + stamp + seq!['.'] + ext
    };
    if compress {
        plain + seq!['.', 'g', 'z']
    } else {
        plain
    }
}

/// `file` placed in `dir`. An empty `dir` leaves `file` as it is, and so
/// does a `file` that starts at the root.
pub open spec fn spec_join(dir: Seq<char>, file: Seq<char>) -> Seq<char> {
    if dir.len() == 0 {
        file
    } else if file.len() > 0 && file[0] == '/' {
        file
    } else if dir.last() == '/' {
        dir + file
    } else {
        dir + seq!['/'] + file
    }
}

/// The path of the active file.
pub open spec fn spec_log_file_path(dir: Seq<char>, stem: Seq<char>, ext: Seq<char>) -> Seq<char> {
    spec_join(dir, spec_active_name(stem, ext))
}

/// The path of the file rolled at the moment that `stamp` denotes.
pub open spec fn spec_rolled_log_path(
    dir: Seq<char>,
    stem: Seq<char>,
    ext: Seq<char>,
    stamp: Seq<char>,
    compress: bool,
) -> Seq<char> {
    spec_join(dir, spec_rolled_name(stem, ext, stamp, compress))
}

/// Where the parts of a path lie among its characters.
struct Shape {
    /// The directory is the first `dir_len` characters; with `root` set
    /// it is `/` instead, and with `cur` set it is `.`.
    dir_len: usize,
    root: bool,
    cur: bool,
    /// The file name is `name_start..name_end`.
    name_start: usize,
    name_end: usize,
    /// The stem is `name_start..stem_end`, the extension `ext_start..name_end`.
    stem_end: usize,
    ext_start: usize,
}

impl Shape {
    /// Whether the shape describes `path` as the grammar reads it.
    spec fn describes(self, path: Seq<char>) -> bool {
        &&& self.dir_len <= self.name_start <= self.stem_end <= self.ext_start <= self.name_end
                <= path.len()
        &&& spec_parent(path) == if self.root {
            seq!['/']
        } else if self.cur {
            seq!['.']
        } else {
            path.take(self.dir_len as int)
        }
        &&& spec_file_name(path) == path.subrange(self.name_start as int, self.name_end as int)
        &&& spec_stem(spec_file_name(path)) == path.subrange(
            self.name_start as int,
            self.stem_end as int,
        )
        &&& spec_extension(spec_file_name(path)) == path.subrange(
            self.ext_start as int,
            self.name_end as int,
        )
    }
}

/// Length of `v[..len]` once the separators and the segments `.` at its
/// end are cut off.
fn tail_trimmed_len(v: &Vec<char>, len: usize) -> (r: usize)
    requires
        len <= v@.len(),
    ensures
        r <= len,
        spec_trim_tail(v@.take(len as int)) == v@.take(r as int),
{
    let mut r: usize = len;
    while r > 0 && (v[r - 1] == '/' || (v[r - 1] == '.' && (r == 1 || v[r - 2] == '/')))
        invariant
            r <= len <= v@.len(),
            spec_trim_tail(v@.take(len as int)) == spec_trim_tail(v@.take(r as int)),
        decreases r,
    {
        proof {
            assert(v@.take(r as int).drop_last() =~= v@.take(r - 1));
        }
        r = r - 1;
    }
    r
}

/// Reads the shape of the path whose characters are `v`.
fn shape_of(v: &Vec<char>) -> (shape: Shape)
    ensures
        shape.describes(v@),
{
    let n = v.len();
    proof {
        assert(v@.take(n as int) =~= v@);
    }
    let m = tail_trimmed_len(v, n);
    let ghost trimmed = v@.take(m as int);
    proof {
        assert(v@.subrange(0, m as int) =~= trimmed);
        lemma_last_index_of(trimmed, '/');
    }
    let slash = find_last(v, 0, m, '/');
    let (dir_len, root, cur, start) = match slash {
        None => {
            proof {
                assert(v@.take(0) =~= Seq::<char>::empty());
            }
            (0usize, false, false, 0usize)
        },
        Some(k) => {
            proof {
                assert(trimmed.take(k as int) =~= v@.take(k as int));
            }
            let d = tail_trimmed_len(v, k);
            if d > 0 {
                (d, false, false, k + 1)
            } else if v[0] == '/' {
                (0usize, true, false, k + 1)
            } else {
                (0usize, false, true, k + 1)
            }
        },
    };
    let ghost segment = trimmed.skip(start as int);
    proof {
        assert(segment == spec_last_segment(v@));
        assert(segment =~= v@.subrange(start as int, m as int));
    }
    if m - start == 2 && v[start] == '.' && v[start + 1] == '.' {
        proof {
            assert(segment =~= seq!['.', '.']);
            let empty = Seq::<char>::empty();
            assert(v@.subrange(start as int, start as int) =~= empty);
            assert(last_index_of(empty, '.') == -1);
        }
        return Shape {
            dir_len,
            root,
            cur,
            name_start: start,
            name_end: start,
            stem_end: start,
            ext_start: start,
        };
    }
    proof {
        assert(segment != seq!['.', '.']) by {
            if segment == seq!['.', '.'] {
                assert(segment.len() == 2 && segment[0] == '.' && segment[1] == '.');
                assert(v@[start as int] == segment[0]);
                assert(v@[start + 1] == segment[1]);
            }
        }
        assert(spec_file_name(v@) == segment);
        lemma_last_index_of(segment, '.');
    }
    let (stem_end, ext_start) = match find_last(v, start, m, '.') {
        None => (m, m),
        Some(d) => {
            if d == 0 {
                (m, m)
            } else if start + d == m - 1 {
                (m, m)
            } else {
                (start + d, start + d + 1)
            }
        },
    };
    proof {
        let dot = last_index_of(segment, '.');
        if dot <= 0 {
            assert(v@.subrange(m as int, m as int) =~= Seq::<char>::empty());
        } else {
            assert(segment.skip(dot + 1) =~= v@.subrange(start + dot + 1, m as int));
            if dot < segment.len() - 1 {
                assert(segment.take(dot) =~= v@.subrange(start as int, start + dot));
            }
        }
    }
    Shape { dir_len, root, cur, name_start: start, name_end: m, stem_end, ext_start }
}

/// Splits `path` into directory, stem and extension.
pub fn split_file_path(path: &str) -> (parts: (String, String, String))
    ensures
        (parts.0@, parts.1@, parts.2@) == spec_split(path@),
{
    let v = to_chars(path);
    let shape = shape_of(&v);
    let dir = if shape.root {
        proof {
            reveal_strlit("/");
            assert("/"@ =~= seq!['/']);
        }
        "/".to_owned()
    } else if shape.cur {
        proof {
            reveal_strlit(".");
            assert("."@ =~= seq!['.']);
        }
        ".".to_owned()
    } else {
        path.substring_char(0, shape.dir_len).to_owned()
    };
    let stem = path.substring_char(shape.name_start, shape.stem_end).to_owned();
    let extn = path.substring_char(shape.ext_start, shape.name_end).to_owned();
    (dir, stem, extn)
}

/// The file name of `path` and the extension of that name.
pub fn file_name_and_extension(path: &str) -> (parts: (String, String))
    ensures
        parts.0@ == spec_file_name(path@),
        parts.1@ == spec_extension(spec_file_name(path@)),
{
    let v = to_chars(path);
    let shape = shape_of(&v);
    let name = path.substring_char(shape.name_start, shape.name_end).to_owned();
    let extn = path.substring_char(shape.ext_start, shape.name_end).to_owned();
    (name, extn)
}

/// The directory to list for `dir`: `.` where `dir` is empty.
pub open spec fn spec_dir_path(dir: Seq<char>) -> Seq<char> {
    if dir.len() == 0 {
        seq!['.']
    } else {
        dir
    }
}

/// The directory to list for `dir`.
pub fn dir_path<'a>(dir: &'a str) -> (listed: &'a str)
    ensures
        listed@ == spec_dir_path(dir@),
{
    if dir.is_empty() {
        proof {
            reveal_strlit(".");
            assert("."@ =~= seq!['.']);
        }
        "."
    } else {
        dir
    }
}

/// Puts `file` into the directory `dir`.
pub fn join(dir: &str, file: &str) -> (path: String)
    ensures
        path@ == spec_join(dir@, file@),
{
    if dir.is_empty() {
        return file.to_owned();
    }
    if !file.is_empty() && file.get_char(0) == '/' {
        return file.to_owned();
    }
    let mut path = dir.to_owned();
    let len = dir.unicode_len();
    if dir.get_char(len - 1) != '/' {
        proof {
            reveal_strlit("/");
            assert("/"@ =~= seq!['/']);
        }
        path.append("/");
    }
    path.append(file);
    path
}

/// The name of the active file.
pub fn active_name(log_file_name: &str, log_file_extn: &str) -> (name: String)
    ensures
        name@ == spec_active_name(log_file_name@, log_file_extn@),
{
    let mut name = log_file_name.to_owned();
    if !log_file_extn.is_empty() {
        proof {
            reveal_strlit(".");
            assert("."@ =~= seq!['.']);
        }
        name.append(".");
        name.append(log_file_extn);
    }
    name
}

/// The path of the active log file: `log_file_name.log_file_extn`, or
/// `log_file_name` alone, in `log_dir`.
pub fn log_file_path(log_dir: &str, log_file_name: &str, log_file_extn: &str) -> (path: String)
    requires
        log_file_name@.len() > 0,
    ensures
        path@ == spec_log_file_path(log_dir@, log_file_name@, log_file_extn@),
{
    let name = active_name(log_file_name, log_file_extn);
    join(log_dir, name.as_str())
}

/// The path of the file rolled at the moment that `stamp` denotes.
pub fn rolled_log_path_at(
    log_dir: &str,
    log_file_name: &str,
    log_file_extn: &str,
    stamp: &str,
    compress: bool,
) -> (path: String)
    requires
        log_file_name@.len() > 0,
    ensures
        path@ == spec_rolled_log_path(
            log_dir@,
            log_file_name@,
            log_file_extn@,
            stamp@,
            compress,
        ),
{
    proof {
        reveal_strlit(".");
        assert("."@ =~= seq!['.']);
        reveal_strlit(".gz");
        assert(".gz"@ =~= seq!['.', 'g', 'z']);
    }
    let mut name = log_file_name.to_owned();
    name.append(".");
    name.append(stamp);
    if !log_file_extn.is_empty() {
        name.append(".");
        name.append(log_file_extn);
    }
    if compress {
        name.append(".gz");
    }
    join(log_dir, name.as_str())
}

/// The path of the file rolled now.
pub fn rolled_log_path(
    log_dir: &str,
    log_file_name: &str,
    log_file_extn: &str,
    compress: bool,
) -> (path: String)
    requires
        log_file_name@.len() > 0,
    ensures
        exists|now: int|
            valid_timestamp(now) && path@ == spec_rolled_log_path(
                log_dir@,
                log_file_name@,
                log_file_extn@,
                #[trigger] utc_text(now, FL_NM_FORMAT@),
                compress,
            ),
{
    let now = now_millis();
    let stamp = file_stamp(now).unwrap();
    let path = rolled_log_path_at(log_dir, log_file_name, log_file_extn, stamp.as_str(), compress);
    assert(stamp@ == utc_text(now as int, FL_NM_FORMAT@));
    path
}

/// A file name has a stem: only the empty name has the empty stem, so a
/// path is without a stem only where it names no file.
pub proof fn lemma_stem_of_a_name(name: Seq<char>)
    ensures
        spec_stem(name).len() == 0 <==> name.len() == 0,
        spec_stem(name) + (if spec_extension(name).len() == 0 {
            Seq::<char>::empty()
        } else {
            seq!['.'] + spec_extension(name)
        }) == name,
{
    lemma_last_index_of(name, '.');
    let dot = last_index_of(name, '.');
    if dot <= 0 || dot == name.len() - 1 {
        if dot > 0 {
            assert(name.skip(dot + 1) =~= Seq::<char>::empty());
        }
        assert(name + Seq::<char>::empty() =~= name);
    } else {
        assert(name.take(dot) + (seq!['.'] + name.skip(dot + 1)) =~= name);
    }
}

/// Splitting the path of the active file gives back the directory, stem
/// and extension it was made of, with a stem that may hold dots as long
/// as an extension follows it.
///
/// This holds of parts that are parts: a stem and an extension without
/// `/`, an extension without `.`, and a directory that is empty, the
/// root or `.`, or ends neither in `/` nor in a segment `.`.
pub proof fn lemma_split_log_file_path(dir: Seq<char>, stem: Seq<char>, ext: Seq<char>)
    requires
        stem.len() > 0,
        !stem.contains('/'),
        !ext.contains('/'),
        !ext.contains('.'),
        ext.len() == 0 ==> !stem.contains('.'),
        dir.len() == 0 || dir == seq!['/'] || dir == seq!['.'] || (dir.last() != '/'
            && !spec_ends_in_dot(dir)),
    ensures
        spec_split(spec_log_file_path(dir, stem, ext)) == (dir, stem, ext),
{
    let name = spec_active_name(stem, ext);
    let path = spec_log_file_path(dir, stem, ext);
    assert(!name.contains('/')) by {
        if name.contains('/') {
            let k = choose|k: int| 0 <= k < name.len() && name[k] == '/';
            if k < stem.len() {
                assert(stem[k] == '/');
            } else if ext.len() > 0 && k > stem.len() {
                assert(ext[k - stem.len() - 1] == '/');
            }
        }
    }
    assert(name[0] != '/') by {
        if name[0] == '/' {
            assert(name.contains('/'));
        }
    }
    // The name ends neither in `/` nor in `.`, so nothing is trimmed.
    assert(name.last() != '/') by {
        if name.last() == '/' {
            assert(name[name.len() - 1] == '/');
            assert(name.contains('/'));
        }
    }
    assert(name.last() != '.') by {
        if ext.len() == 0 {
            if stem.last() == '.' {
                assert(stem[stem.len() - 1] == '.');
                assert(stem.contains('.'));
            }
        } else if ext.last() == '.' {
            assert(ext[ext.len() - 1] == '.');
            assert(ext.contains('.'));
        }
    }
    assert(path.last() == name.last());
    assert(spec_trim_tail(path) == path);
    // The directory and the last segment.
    if dir.len() == 0 {
        lemma_last_index_absent(path, '/');
        assert(path.skip(0) =~= name);
    } else if dir.last() == '/' {
        assert(dir =~= seq!['/']);
        assert(path =~= seq!['/'] + name);
        lemma_last_index_is(path, '/', 0);
        assert(path.take(0) =~= Seq::<char>::empty());
        assert(spec_trim_tail(Seq::<char>::empty()) == Seq::<char>::empty());
        assert(path.skip(1) =~= name);
    } else {
        let k = dir.len() as int;
        assert(path =~= dir + seq!['/'] + name);
        lemma_last_index_is(path, '/', k);
        assert(path.take(k) =~= dir);
        assert(path.skip(k + 1) =~= name);
        if dir == seq!['.'] {
            assert(dir.drop_last() =~= Seq::<char>::empty());
            assert(spec_trim_tail(dir.drop_last()) == Seq::<char>::empty());
            assert(spec_trim_tail(dir) == Seq::<char>::empty());
            assert(path[0] == '.');
        } else {
            assert(spec_trim_tail(dir) == dir);
        }
    }
    assert(spec_last_segment(path) == name);
    assert(spec_parent(path) == dir);
    // The stem and the extension.
    if ext.len() == 0 {
        lemma_last_index_absent(name, '.');
        assert(name != seq!['.', '.']) by {
            if name == seq!['.', '.'] {
                assert(name[0] == '.');
            }
        }
        assert(ext =~= Seq::<char>::empty());
    } else {
        let d = stem.len() as int;
        assert(name.len() >= 3);
        assert(name[d] == '.');
        assert forall|j: int| d < j < name.len() implies name[j] != '.' by {
            if name[j] == '.' {
                assert(ext[j - d - 1] == '.');
            }
        }
        lemma_last_index_is(name, '.', d);
        assert(name.skip(d + 1) =~= ext);
        assert(name.take(d) =~= stem);
    }
}

} // verus!
