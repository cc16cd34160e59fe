//! Book-keeping of the exports and imports that run in the background: the
//! job record shown to the user, its progress, and how it ends.

use vstd::prelude::*;
use crate::text::{chars_of, contains_chars, contains_sub};

verus! {

/// An export (or MBTiles import) running in the background.
#[derive(Debug, Clone)]
pub struct ExportJob {
    pub job_id: String,
    pub task_id: String,
    pub format: String,
    pub dest_path: String,
    pub done: u64,
    pub total: u64,
    /// `running`, `done`, `error` or `cancelled`.
    pub status: String,
    pub error: Option<String>,
}

/// How an export ended, as reported to the user.
#[derive(Debug, Clone)]
pub struct ExportEnd {
    pub status: String,
    pub error: Option<String>,
    /// Tiles written (0 unless it finished).
    pub done: u64,
}

/// An exporter stopped because the job was cancelled: its error says
/// `__cancelled__`.
pub open spec fn cancel_error(msg: Seq<char>) -> bool {
    contains_sub(msg, "__cancelled__"@)
}

pub open spec fn error_view(e: Option<String>) -> Option<Seq<char>> {
    match e {
        Some(s) => Some(s@),
        None => None,
    }
}

impl ExportJob {
    /// A job that has just started: running, nothing done yet.
    pub fn start(job_id: String, task_id: String, format: String, dest_path: String) -> (r: ExportJob)
        ensures
            r.job_id == job_id,
            r.task_id == task_id,
            r.format == format,
            r.dest_path == dest_path,
            r.done == 0,
            r.total == 0,
            r.status@ == "running"@,
            r.error is None,
    {
        ExportJob { job_id, task_id, format, dest_path, done: 0, total: 0, status: String::from_str("running"), error: None }
    }

    /// Records the progress an exporter reported.
    pub fn record_progress(&mut self, done: u64, total: u64)
        ensures
            *final(self) == (ExportJob { done, total, ..*old(self) }),
    {
        self.done = done;
        self.total = total;
    }

    /// Ends an export with the exporter's result (tiles written, or its
    /// error text): `done` with the count (a count of 0 leaves the progress
    /// as it was), `cancelled` for a cancellation, `error` with the text
    /// otherwise. Returns what is reported.
    pub fn finish_export(&mut self, result: Result<u64, String>) -> (r: ExportEnd)
        ensures
            final(self).job_id == old(self).job_id,
            final(self).task_id == old(self).task_id,
            final(self).format == old(self).format,
            final(self).dest_path == old(self).dest_path,
            final(self).total == old(self).total,
            final(self).status@ == r.status@,
            error_view(final(self).error) == error_view(r.error),
            final(self).done == (if r.done > 0 { r.done } else { old(self).done }),
            match result {
                Ok(n) => r.status@ == "done"@ && r.error is None && r.done == n,
                Err(e) => if cancel_error(e@) {
                    r.status@ == "cancelled"@ && r.error is None && r.done == 0
                } else {
                    r.status@ == "error"@ && error_view(r.error) == Some(e@) && r.done == 0
                },
            },
    {
        let end = match result {
            Ok(n) => ExportEnd { status: String::from_str("done"), error: None, done: n },
            Err(e) => {
                if contains_chars(&chars_of(e.as_str()), &chars_of("__cancelled__")) {
                    ExportEnd { status: String::from_str("cancelled"), error: None, done: 0 }
                } else {
                    ExportEnd { status: String::from_str("error"), error: Some(e), done: 0 }
                }
            },
        };
        self.status = end.status.clone();
        self.error = match &end.error {
            Some(t) => Some(t.clone()),
            None => None,
        };
        if end.done > 0 {
            self.done = end.done;
        }
        end
    }

    /// Ends an MBTiles import: `done` with all tiles counted, or `error`
    /// with the error text.
    pub fn finish_import(&mut self, result: Result<u64, String>)
        ensures
            final(self).job_id == old(self).job_id,
            final(self).task_id == old(self).task_id,
            final(self).format == old(self).format,
            final(self).dest_path == old(self).dest_path,
            match result {
                Ok(n) => final(self).status@ == "done"@ && final(self).done == n && final(self).total == n
                    && error_view(final(self).error) == error_view(old(self).error),
                Err(e) => final(self).status@ == "error"@ && error_view(final(self).error) == Some(e@)
                    && final(self).done == old(self).done && final(self).total == old(self).total,
            },
    {
        match result {
            Ok(n) => {
                self.status = String::from_str("done");
                self.done = n;
                self.total = n;
            },
            Err(e) => {
                self.status = String::from_str("error");
                self.error = Some(e);
            },
        }
    }
}

} // verus!
