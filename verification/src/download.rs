//! The download state machine: one model pull and the progress it reports.

use vstd::prelude::*;
use vstd::string::StringExecFns;

use crate::events::{
    download_outcome_view, DownloadOutcomeModel, DownloadProgressUpdate, DownloadUpdateModel,
    Error,
};
use crate::keyed::Keyed;
use crate::session::{subscribe_to_download, Session, SessionKindModel, SessionModel};
use crate::session_id::SessionId;

verus! {

/// One model download that is under way.
///
/// `total` is 0 until the server has said how much there is to fetch.
#[derive(Debug, PartialEq, Eq)]
pub struct DownloadProgress {
    pub id: SessionId,
    pub model: String,
    pub status: String,
    pub total: u64,
    pub completed: u64,
}

/// The model of a `DownloadProgress`.
pub struct DownloadModel {
    pub id: SessionId,
    pub model: Seq<char>,
    pub status: Seq<char>,
    pub total: u64,
    pub completed: u64,
}

impl View for DownloadProgress {
    type V = DownloadModel;

    open spec fn view(&self) -> DownloadModel {
        DownloadModel {
            id: self.id,
            model: self.model@,
            status: self.status@,
            total: self.total,
            completed: self.completed,
        }
    }
}

impl Clone for DownloadProgress {
    fn clone(&self) -> (copy: DownloadProgress)
        ensures
            copy@ == self@,
    {
        DownloadProgress {
            id: self.id,
            model: self.model.clone(),
            status: self.status.clone(),
            total: self.total,
            completed: self.completed,
        }
    }
}

impl DownloadModel {
    /// The download of `model` as it begins.
    pub open spec fn started(id: SessionId, model: Seq<char>) -> DownloadModel {
        DownloadModel { id, model, status: "Starting download..."@, total: 0, completed: 0 }
    }

    /// The download after an outcome of its stream, or `None` where the
    /// outcome ends it. Progress overwrites status and counts, whatever they
    /// were. A failure is written into the status and the download stays.
    /// Completion ends the download.
    pub open spec fn progressed(self, outcome: DownloadOutcomeModel) -> Option<DownloadModel> {
        match outcome {
            Ok(DownloadUpdateModel::Progress { status, total, completed }) => Some(
                DownloadModel { status, total, completed, ..self },
            ),
            Ok(DownloadUpdateModel::Finished) => None,
            Err(error) => Some(
                DownloadModel { status: "Error: "@ + error.description(), ..self },
            ),
        }
    }

    /// The progress to show, as a part and a whole: the whole is never 0 and
    /// the part never exceeds it. While the total is unknown the part is 0.
    pub open spec fn fraction(self) -> (u64, u64) {
        if self.total == 0 {
            (0, 1)
        } else if self.completed > self.total {
            (self.total, self.total)
        } else {
            (self.completed, self.total)
        }
    }

    /// The stream that this download wants open against the server at `base_url`.
    pub open spec fn session(self, base_url: Seq<char>) -> SessionModel {
        SessionModel {
            id: self.id,
            url: base_url + "/api/pull"@,
            kind: SessionKindModel::Pull { model: self.model },
        }
    }
}

impl DownloadProgress {
    /// The download of `model` as it begins.
    pub fn new(id: SessionId, model: String) -> (download: DownloadProgress)
        ensures
            download@ == DownloadModel::started(id, model@),
    {
        DownloadProgress {
            id,
            model,
            status: String::from_str("Starting download..."),
            total: 0,
            completed: 0,
        }
    }

    /// Applies an outcome of the download's stream, and says whether the
    /// download goes on. Where it does not, the download is left as it was and
    /// its owner removes it.
    pub fn progress(&mut self, outcome: Result<DownloadProgressUpdate, Error>) -> (stays: bool)
        ensures
            match old(self)@.progressed(download_outcome_view(outcome)) {
                Some(next) => stays && final(self)@ == next,
                None => !stays && final(self)@ == old(self)@,
            },
    {
        match outcome {
            Ok(DownloadProgressUpdate::Progress { status, total, completed }) => {
                self.status = status;
                self.total = total;
                self.completed = completed;
                true
            },
            Ok(DownloadProgressUpdate::Finished) => false,
            Err(error) => {
                let mut status = String::from_str("Error: ");
                status.append(error.describe().as_str());
                self.status = status;
                true
            },
        }
    }

    /// The progress to show, as a part and a whole.
    pub fn fraction(&self) -> (shown: (u64, u64))
        ensures
            shown == self@.fraction(),
            shown.1 > 0,
            shown.0 <= shown.1,
            self.total == 0 ==> shown.0 == 0,
    {
        if self.total == 0 {
            (0, 1)
        } else if self.completed > self.total {
            (self.total, self.total)
        } else {
            (self.completed, self.total)
        }
    }

    /// The stream that this download wants open against the server at `base_url`.
    pub fn subscription(&self, base_url: &str) -> (wanted: Session)
        ensures
            wanted@ == self@.session(base_url@),
    {
        let mut url = String::from_str(base_url);
        url.append("/api/pull");
        subscribe_to_download(self.id, url, self.model.clone())
    }
}

impl Keyed for DownloadProgress {
    open spec fn key_of(model: DownloadModel) -> SessionId {
        model.id
    }

    fn key(&self) -> (id: SessionId) {
        self.id
    }
}

} // verus!
