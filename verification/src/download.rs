//! Model downloads from the terminal interface: which models may be
//! downloaded and under which script argument, and how a finished download
//! is reported. Running the download script is left to the caller.
use vstd::prelude::*;
use crate::text::{chars_of, concat_chars, str_eq, string_of, trim, trim_chars};

verus! {

/// How far a download has come, and its latest message.
#[derive(Debug, PartialEq, Eq)]
pub struct DownloadProgress {
    pub percent: Option<u8>,
    pub message: String,
}

/// How a download ended.
#[derive(Clone, Copy, Debug, PartialEq, Eq, Structural)]
pub enum DownloadOutcome {
    Completed,
}

/// The download script's argument for a model that may be downloaded.
pub open spec fn allowlisted_argument(model_id: Seq<char>) -> Option<Seq<char>> {
    if model_id == "whisper-large-v3-turbo"@ {
        Some("whisper"@)
    } else if model_id == "zipformer-small"@ {
        Some("zipformer-small"@)
    } else if model_id == "zipformer-medium"@ {
        Some("zipformer-medium"@)
    } else if model_id == "zipformer-large"@ {
        Some("zipformer-large"@)
    } else {
        None
    }
}

/// The error for a model that may not be downloaded.
pub open spec fn not_allowlisted_message(model_id: Seq<char>) -> Seq<char> {
    "automatic download is not allowlisted for model `"@ + model_id + "`"@
}

/// The download script's argument for a model, or the error for a model
/// that may not be downloaded: only the allowlisted ids are accepted, so
/// no other text ever reaches the script.
pub fn script_argument(model_id: &str) -> (r: Result<&'static str, String>)
    ensures
        match allowlisted_argument(model_id@) {
            Some(a) => r matches Ok(s) && s@ == a,
            None => r matches Err(m) && m@ == not_allowlisted_message(model_id@),
        },
{
    if str_eq(model_id, "whisper-large-v3-turbo") {
        Ok("whisper")
    } else if str_eq(model_id, "zipformer-small") {
        Ok("zipformer-small")
    } else if str_eq(model_id, "zipformer-medium") {
        Ok("zipformer-medium")
    } else if str_eq(model_id, "zipformer-large") {
        Ok("zipformer-large")
    } else {
        Err(crate::model::text3("automatic download is not allowlisted for model `", model_id, "`"))
    }
}

/// The error of a failed download: the exit status, then the trimmed output
/// of the script when there is any.
pub open spec fn download_failed_message(status: Seq<char>, output: Seq<char>) -> Seq<char> {
    "model download failed ("@ + status + ")"@ + if trim(output).len() == 0 {
        Seq::<char>::empty()
    } else {
        ": "@ + trim(output)
    }
}

/// Reports a finished download: on success the progress reads 100 % and
/// `download verified`; on failure the error carries the exit status text
/// and the trimmed output, and the progress is kept.
pub fn finish_download(
    progress: &mut DownloadProgress,
    success: bool,
    status: &str,
    output: &str,
) -> (r: Result<DownloadOutcome, String>)
    ensures
        success ==> r == Ok::<DownloadOutcome, String>(DownloadOutcome::Completed)
            && final(progress).percent == Some(100u8) && final(progress).message@
            == "download verified"@,
        !success ==> *final(progress) == *old(progress) && (r matches Err(m) && m@
            == download_failed_message(status@, output@)),
{
    if success {
        progress.percent = Some(100);
        progress.message = "download verified".to_owned();
        return Ok(DownloadOutcome::Completed);
    }
    let details = trim_chars(&chars_of(output));
    let head = concat_chars(chars_of("model download failed ("), &chars_of(status));
    let head = concat_chars(head, &chars_of(")"));
    let msg = if details.len() == 0 {
        head
    } else {
        concat_chars(concat_chars(head, &chars_of(": ")), &details)
    };
    proof {
        if details@.len() == 0 {
            assert(msg@ =~= download_failed_message(status@, output@));
        }
    }
    Err(string_of(&msg))
}

} // verus!
