//! The persistence protocol and the clock. A snapshot is written to a
//! temporary sibling file and then renamed over the target, so a crash
//! between the two steps leaves the previously saved bytes untouched;
//! the model here states that protocol, and the I/O shell follows it.

use vstd::prelude::*;
use crate::date::{days_in_month, Date};

verus! {

/// The two files the save protocol touches, as values.
#[verifier::ext_equal]
pub struct FsV {
    pub main: Option<Seq<u8>>,
    pub temp: Option<Seq<u8>>,
}

/// Writing the temporary sibling: the main file is untouched.
pub open spec fn spec_write_temp(fs: FsV, data: Seq<u8>) -> FsV {
    FsV { main: fs.main, temp: Some(data) }
}

/// The atomic rename: the temporary becomes the main file.
pub open spec fn spec_rename(fs: FsV) -> FsV {
    FsV { main: fs.temp, temp: None }
}

/// Atomic persistence: a save that stops between the temporary write
/// and the rename leaves the main file byte-identical to what it held
/// before, and a completed save replaces it with exactly the new bytes.
pub proof fn lemma_atomic_save(fs: FsV, data: Seq<u8>)
    ensures
        spec_write_temp(fs, data).main == fs.main,
        spec_rename(spec_write_temp(fs, data)).main == Some(data),
{
}

/// An in-memory model of the two files, for exercising the protocol.
pub struct FileStore {
    pub main: Option<Vec<u8>>,
    pub temp: Option<Vec<u8>>,
}

pub open spec fn fs_view(s: &FileStore) -> FsV {
    FsV {
        main: match s.main {
            Some(ref v) => Some(v@),
            None => None,
        },
        temp: match s.temp {
            Some(ref v) => Some(v@),
            None => None,
        },
    }
}

impl FileStore {
    pub fn new() -> (r: FileStore)
        ensures
            fs_view(&r).main is None,
            fs_view(&r).temp is None,
    {
        FileStore { main: None, temp: None }
    }

    /// Step one of a save; interrupting after this step is harmless.
    pub fn write_temp(&mut self, data: Vec<u8>)
        ensures
            fs_view(final(self)) == spec_write_temp(fs_view(old(self)), data@),
    {
        let ghost pre = fs_view(old(self));
        self.temp = Some(data);
        proof {
            assert(fs_view(self) =~~= spec_write_temp(pre, data@));
        }
    }

    /// Step two of a save: the rename, which happens entirely or not at
    /// all.
    pub fn rename_temp(&mut self)
        requires
            fs_view(old(self)).temp is Some,
        ensures
            fs_view(final(self)) == spec_rename(fs_view(old(self))),
    {
        let ghost pre = fs_view(old(self));
        let t: Option<Vec<u8>> = match &self.temp {
            Some(v) => Some(copy_bytes(v)),
            None => None,
        };
        self.main = t;
        self.temp = None;
        proof {
            assert(fs_view(self) =~~= spec_rename(pre));
        }
    }

    /// The bytes a reader would see in the main file.
    pub fn read_main(&self) -> (r: Option<&Vec<u8>>)
        ensures
            (match r {
                Some(v) => fs_view(self).main == Some(v@),
                None => fs_view(self).main is None,
            }),
    {
        match &self.main {
            Some(v) => Some(v),
            None => None,
        }
    }
}

fn copy_bytes(v: &Vec<u8>) -> (r: Vec<u8>)
    ensures
        r@ == v@,
{
    let mut r: Vec<u8> = Vec::new();
    let mut i: usize = 0;
    while i < v.len()
        invariant
            i <= v@.len(),
            r@ =~= v@.take(i as int),
        decreases v@.len() - i,
    {
        r.push(v[i]);
        assert(r@ =~= v@.take(i + 1));
        i = i + 1;
    }
    assert(v@.take(v@.len() as int) =~= v@);
    r
}

/// Relies on `chrono::Local::now` and the `chrono::Datelike` accessors:
/// the current civil date in the local time zone. The chrono
/// documentation states that `month()` is in 1..=12 and `day()` in
/// 1..=31; nothing more is assumed of the clock.
#[verifier::external_body]
fn raw_today() -> (r: (i32, u32, u32))
    ensures
        1 <= r.1 <= 12,
        1 <= r.2 <= 31,
{
    let now = chrono::Local::now().date_naive();
    (
        chrono::Datelike::year(&now),
        chrono::Datelike::month(&now),
        chrono::Datelike::day(&now),
    )
}

/// The wall-clock date, clamped into the representable window, so it is
/// always a well-formed calendar date with a four-digit year no earlier
/// than the epoch, whatever the clock returns.
pub fn today() -> (r: Date)
    ensures
        r.wf(),
        1970 <= r.year <= 9999,
{
    let (y, m, d) = raw_today();
    let yy: u32 = if y < 1970 {
        1970
    } else if y > 9999 {
        9999
    } else {
        y as u32
    };
    let dim = days_in_month(yy, m);
    let dd: u32 = if d > dim {
        dim
    } else {
        d
    };
    Date { year: yy, month: m, day: dd }
}

} // verus!
