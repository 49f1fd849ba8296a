use vstd::prelude::*;
use vstd::string::*;
use crate::error::PluginError;

verus! {

/// The name of the artifact that a download of `file_name` yields: every
/// transfer is taken to end as an MP3 file.
pub open spec fn artifact_of(file_name: Seq<char>) -> Seq<char> {
    file_name + ".mp3"@
}

pub open spec fn exit_failure_text() -> Seq<char> {
    "The transfer process did not end successfully"@
}

pub open spec fn join_failure_text() -> Seq<char> {
    "An error occured while joining progress follower thread"@
}

/// The name of the artifact that a download of `file_name` yields.
pub fn artifact_name(file_name: &str) -> (r: String)
    ensures
        r@ == artifact_of(file_name@),
{
    let mut r = String::from_str(file_name);
    r.append(".mp3");
    r
}

/// Decides how a download ends once its read loop is over: `exit_ok` tells
/// whether the transfer process ended successfully, `follower_joined`
/// whether the progress follower could be joined. Either failure fails the
/// download, a failed process first, even where the transfer itself went
/// through.
pub fn finish_download(file_name: &str, exit_ok: bool, follower_joined: bool) -> (r: Result<
    String,
    PluginError,
>)
    ensures
        r.is_ok() == (exit_ok && follower_joined),
        r matches Ok(a) ==> a@ == artifact_of(file_name@),
        !exit_ok ==> (r matches Err(PluginError::DownloadError(m)) && m@ == exit_failure_text()),
        exit_ok && !follower_joined ==> (r matches Err(PluginError::DownloadError(m)) && m@
            == join_failure_text()),
{
    if !exit_ok {
        Err(PluginError::DownloadError(String::from_str("The transfer process did not end successfully")))
    } else if !follower_joined {
        Err(
            PluginError::DownloadError(
                String::from_str("An error occured while joining progress follower thread"),
            ),
        )
    } else {
        Ok(artifact_name(file_name))
    }
}

} // verus!
