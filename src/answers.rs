//! What the parser needs from outside: inline encodings of images, blog
//! directories and local-time conversions. The caller answers requests in a table; the parser
//! reads the table and names the first request it finds unanswered.
use vstd::prelude::*;

use crate::text::strings_view;

verus! {

/// A date and time on the local clock, as written in a `Date` tag.
#[derive(Clone, Copy, Debug, PartialEq, Eq, Structural)]
pub struct LocalDateTime {
    pub year: i32,
    pub month: u32,
    pub day: u32,
    pub hour: u32,
    pub minute: u32,
    pub second: u32,
}

/// Something that only the caller can provide.
#[derive(Clone, Debug)]
pub enum Request {
    /// The data URL of the thumbnail of the image at this source-relative
    /// path, fitted to this size (the default size when none is given).
    InlineImage(String, Option<u32>),
    /// The texts of the readable regular files in this source-relative
    /// directory.
    BlogDir(String),
    /// The UTC timestamp, in seconds, of this local date and time.
    LocalTime(LocalDateTime),
}

/// The answers given so far. Where a key occurs twice, the first answer
/// counts.
#[derive(Clone, Debug)]
pub struct Answers {
    /// Image path and size, and the data URL of its thumbnail or `None`
    /// when the file cannot be read or decoded.
    pub images: Vec<(String, Option<u32>, Option<String>)>,
    /// Directory path, and the texts of its files in listing order or
    /// `None` when the directory does not exist or cannot be listed.
    pub dirs: Vec<(String, Option<Vec<String>>)>,
    /// Local time, and its UTC timestamp or `None` when the local time is
    /// ambiguous or does not exist.
    pub times: Vec<(LocalDateTime, Option<i64>)>,
}

/// What a request asks for.
pub enum RequestModel {
    InlineImage(Seq<char>, Option<u32>),
    BlogDir(Seq<char>),
    LocalTime(LocalDateTime),
}

pub open spec fn request_model(r: Request) -> RequestModel {
    match r {
        Request::InlineImage(p, size) => RequestModel::InlineImage(p@, size),
        Request::BlogDir(p) => RequestModel::BlogDir(p@),
        Request::LocalTime(t) => RequestModel::LocalTime(t),
    }
}

/// The answers as plain values.
pub struct AnswersModel {
    pub images: Seq<((Seq<char>, Option<u32>), Option<Seq<char>>)>,
    pub dirs: Seq<(Seq<char>, Option<Seq<Seq<char>>>)>,
    pub times: Seq<(LocalDateTime, Option<i64>)>,
}

impl Answers {
    pub open spec fn view(&self) -> AnswersModel {
        AnswersModel {
            images: self.images@.map_values(
                |e: (String, Option<u32>, Option<String>)|
                    (
                        (e.0@, e.1),
                        match e.2 {
                            Some(u) => Some(u@),
                            None => None,
                        },
                    ),
            ),
            dirs: self.dirs@.map_values(
                |e: (String, Option<Vec<String>>)|
                    (
                        e.0@,
                        match e.1 {
                            Some(f) => Some(strings_view(f@)),
                            None => None,
                        },
                    ),
            ),
            times: self.times@,
        }
    }
}

/// The first answer for `key` at position `i` or later; `None` when there
/// is none.
pub open spec fn lookup_from<K, V>(table: Seq<(K, V)>, key: K, i: int) -> Option<V>
    decreases table.len() - i,
{
    if i < 0 || i >= table.len() {
        None
    } else if table[i].0 == key {
        Some(table[i].1)
    } else {
        lookup_from(table, key, i + 1)
    }
}

/// The first answer for `key`.
pub open spec fn lookup<K, V>(table: Seq<(K, V)>, key: K) -> Option<V> {
    lookup_from(table, key, 0)
}

/// The answer for the image at `path` and `size`: `None` while
/// unanswered.
pub fn find_image<'a>(answers: &'a Answers, path: &String, size: Option<u32>) -> (r: Option<&'a Option<String>>)
    ensures
        match (r, lookup(answers@.images, (path@, size))) {
            (Some(Some(u)), Some(Some(m))) => u@ == m,
            (Some(None), Some(None)) => true,
            (None, None) => true,
            _ => false,
        },
{
    let n = answers.images.len();
    let mut i: usize = 0;
    while i < n
        invariant
            n == answers.images@.len(),
            i <= n,
            lookup(answers@.images, (path@, size)) == lookup_from(
                answers@.images,
                (path@, size),
                i as int,
            ),
        decreases n - i,
    {
        let same_size = match (answers.images[i].1, size) {
            (Some(a), Some(b)) => a == b,
            (None, None) => true,
            _ => false,
        };
        if same_size && answers.images[i].0 == *path {
            return Some(&answers.images[i].2);
        }
        i = i + 1;
    }
    None
}

/// The answer for the directory at `path`: `None` while unanswered.
pub fn find_dir<'a>(answers: &'a Answers, path: &String) -> (r: Option<&'a Option<Vec<String>>>)
    ensures
        match (r, lookup(answers@.dirs, path@)) {
            (Some(Some(f)), Some(Some(m))) => strings_view(f@) == m,
            (Some(None), Some(None)) => true,
            (None, None) => true,
            _ => false,
        },
{
    let n = answers.dirs.len();
    let mut i: usize = 0;
    while i < n
        invariant
            n == answers.dirs@.len(),
            i <= n,
            lookup(answers@.dirs, path@) == lookup_from(answers@.dirs, path@, i as int),
        decreases n - i,
    {
        if answers.dirs[i].0 == *path {
            return Some(&answers.dirs[i].1);
        }
        i = i + 1;
    }
    None
}

/// The answer for the local time `t`: `None` while unanswered.
pub fn find_time(answers: &Answers, t: LocalDateTime) -> (r: Option<Option<i64>>)
    ensures
        r == lookup(answers@.times, t),
{
    let n = answers.times.len();
    let mut i: usize = 0;
    while i < n
        invariant
            n == answers.times@.len(),
            i <= n,
            lookup(answers@.times, t) == lookup_from(answers@.times, t, i as int),
        decreases n - i,
    {
        if answers.times[i].0 == t {
            return Some(answers.times[i].1);
        }
        i = i + 1;
    }
    None
}

} // verus!
