//! The officecli preview processes: the spawner's own state, what a watch
//! process is started with, how a failed start is reported, and when an
//! update is installed.
use vstd::prelude::*;

use crate::paths::{is_csv_file_path, is_csv_path};
use crate::preview::{DocType, OfficeError};
use crate::text::{decimal, owned, push_decimal, str_eq};

verus! {

/// A running watch process.
pub trait ProcessHandle {
    /// Stops the process.
    fn kill(&self);

    /// Whether the process is still running.
    fn is_alive(&self) -> bool;
}

/// Starts officecli watch processes; preview workbooks of CSV files are
/// written below its data directory.
#[derive(Debug, Clone)]
pub struct DefaultProcessSpawner {
    data_dir: String,
}

impl DefaultProcessSpawner {
    pub closed spec fn data_dir_view(&self) -> Seq<char> {
        self.data_dir@
    }

    /// A spawner writing previews below `data_dir`.
    pub fn new(data_dir: String) -> (s: Self)
        ensures
            s.data_dir_view() == data_dir@,
    {
        DefaultProcessSpawner { data_dir }
    }

    /// The data directory.
    pub fn data_dir(&self) -> (r: &str)
        ensures
            r@ == self.data_dir_view(),
    {
        self.data_dir.as_str()
    }
}

/// Whether a spreadsheet preview of `file_path` first needs a workbook made
/// from the CSV file.
pub fn needs_csv_workbook(doc_type: DocType, file_path: &str) -> (r: bool)
    ensures
        r == (doc_type == DocType::Excel && exists|name: Option<Seq<char>>| is_csv_path(file_path@, name)),
{
    match doc_type {
        DocType::Excel => is_csv_file_path(file_path),
        _ => false,
    }
}

/// The arguments of `officecli` that watch `path` on `port`.
pub fn watch_args(path: &str, port: u16) -> (r: Vec<String>)
    ensures
        r@.len() == 4,
        r@[0]@ == "watch"@,
        r@[1]@ == path@,
        r@[2]@ == "--port"@,
        r@[3]@ == decimal(port as nat),
{
    let mut p = String::new();
    push_decimal(&mut p, port as u64);
    assert(Seq::<char>::empty() + decimal(port as nat) == decimal(port as nat));
    let mut r: Vec<String> = Vec::new();
    r.push(owned("watch"));
    r.push(owned(path));
    r.push(owned("--port"));
    r.push(p);
    r
}

/// The error of a failed start of officecli: a missing program is reported
/// as officecli not being found, any other failure with its message.
pub fn spawn_error(not_found: bool, message: String) -> (e: OfficeError)
    ensures
        not_found ==> e == OfficeError::OfficecliNotFound,
        !not_found ==> e == OfficeError::StartFailed(message),
{
    if not_found {
        OfficeError::OfficecliNotFound
    } else {
        OfficeError::StartFailed(message)
    }
}

/// Whether an update is installed: the latest release names a version, and
/// it differs from the local one.
pub fn update_available(local: &str, remote: &str) -> (r: bool)
    ensures
        r == (remote@.len() > 0 && remote@ != local@),
{
    remote.unicode_len() > 0 && !str_eq(remote, local)
}

} // verus!
