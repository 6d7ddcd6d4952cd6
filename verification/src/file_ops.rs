//! What the device does on a controller's file requests: which work the file
//! system is given, which jobs start and end, and what is answered.

use crate::message::{FileAction, FileResponse, Message};
use crate::transfer::{first_job, find_job, remove_job, without_job, TransferJob};
use vstd::prelude::*;

verus! {

/// Whether a transfer asks before it overwrites a file. It does not: the device
/// reports a version for which a controller skips the question too, so neither
/// side waits for an answer that the other one never sends.
pub const OVERWRITE_DETECTION: bool = false;

/// The file number in an answer that concerns a whole request.
pub const WHOLE_REQUEST: i32 = -1;

/// The job ID in answers to browsing, which carries none.
pub const BROWSING: i32 = 0;

/// The directory to list.
pub enum DirTarget {
    /// The user's home directory.
    Home,
    /// A directory by its path.
    Path(String),
}

/// Work for the file system, and what has become of the jobs.
pub enum FileStep<X, H> {
    /// List a directory, then answer with [`listing_reply`].
    ListDir { target: DirTarget, include_hidden: bool },
    /// List the files below a path, then answer with [`all_files_reply`].
    ListAll { id: i32, path: String, include_hidden: bool },
    /// List the files below a path, then go on with [`plan_read`] and, if that
    /// starts a job, with [`add_read_job`].
    OpenRead { id: i32, path: String, include_hidden: bool },
    /// Prepare to write files, then go on with [`add_write_job`].
    OpenWrite { id: i32, path: String, files: Vec<X>, file_num: i32, overwrite_detection: bool },
    /// Hand a confirmation to the read job at an index.
    Confirm { index: usize, confirm: X },
    /// Cancel the jobs, and finish the write job.
    Cancel { read: Option<TransferJob<X, H>>, write: Option<TransferJob<X, H>> },
    /// Remove a directory, then answer with [`reply_fs_result`].
    RemoveDir { id: i32, path: String, recursive: bool, file_num: i32 },
    /// Remove a file, then answer with [`reply_fs_result`].
    RemoveFile { id: i32, path: String, file_num: i32 },
    /// Create a directory with its parents, then answer with
    /// [`reply_fs_result`].
    CreateDir { id: i32, path: String, file_num: i32 },
    /// Rename within the parent directory, then answer with
    /// [`reply_fs_result`].
    Rename { id: i32, path: String, new_name: String, file_num: i32 },
    /// Write a block with the write job at an index, then answer with
    /// [`block_reply`].
    WriteBlock { index: usize, file_num: i32, block: X },
    /// Answer a digest with the confirmation of the write job at an index.
    ConfirmDigest { index: usize, digest: X },
    /// Finish the job, then answer with the message.
    Finish { job: TransferJob<X, H>, reply: Message<X> },
    /// Drop the job, if there is one.
    Drop { dropped: Option<TransferJob<X, H>> },
    /// Nothing.
    Nothing,
}

/// The directory that a path in a listing request means: the home directory if
/// it is empty.
pub fn listing_target(dir: String) -> (r: DirTarget)
    ensures
        r == if dir@.len() == 0 {
            DirTarget::Home
        } else {
            DirTarget::Path(dir)
        },
{
    if dir.as_str().is_empty() {
        DirTarget::Home
    } else {
        DirTarget::Path(dir)
    }
}

/// The directory to list when a file-transfer session begins, as a listing
/// request: the one that the controller asked for, if it is one.
pub fn initial_dir(dir: String, is_dir: bool) -> (r: String)
    ensures
        is_dir ==> r@ == dir@,
        !is_dir ==> r@ == Seq::<char>::empty(),
{
    if is_dir {
        dir
    } else {
        String::new()
    }
}

/// The answer to a listing request: the directory and its entries, or what went
/// wrong.
pub fn listing_reply<X>(res: Result<(String, Vec<X>), String>) -> (r: Message<X>)
    ensures
        r == match res {
            Ok((path, entries)) => Message::Dir { id: BROWSING, path, entries },
            Err(error) => Message::TransferError { id: BROWSING, error, file_num: 0 },
        },
{
    match res {
        Ok((path, entries)) => Message::Dir { id: BROWSING, path, entries },
        Err(error) => Message::TransferError { id: BROWSING, error, file_num: 0 },
    }
}

/// The answer to a request for all files below a path.
pub fn all_files_reply<X>(id: i32, path: String, res: Result<Vec<X>, String>) -> (r: Message<X>)
    ensures
        r == match res {
            Ok(entries) => Message::Dir { id, path, entries },
            Err(error) => Message::TransferError { id, error, file_num: WHOLE_REQUEST },
        },
{
    match res {
        Ok(entries) => Message::Dir { id, path, entries },
        Err(error) => Message::TransferError { id, error, file_num: WHOLE_REQUEST },
    }
}

/// What becomes of a download request once its files are listed.
pub enum ReadPlan<X> {
    /// Start a read job with these files and go on with [`add_read_job`].
    Start { id: i32, path: String, files: Vec<X>, overwrite_detection: bool },
    /// Refuse with a message.
    Refuse(Message<X>),
}

/// Whether a download starts: its files could be listed, and there are some.
pub open spec fn starts_read<X>(listing: Result<Vec<X>, String>) -> bool {
    listing matches Ok(files) && files@.len() > 0
}

/// Decides on a download request: it starts if there are files to send.
pub fn plan_read<X>(id: i32, path: String, listing: Result<Vec<X>, String>) -> (r: ReadPlan<X>)
    ensures
        r is Start <==> starts_read(listing),
        match listing {
            Ok(files) => if files@.len() == 0 {
                r matches ReadPlan::Refuse(Message::TransferError { id: i, error, file_num })
                    && i == id && error@ == "no files"@ && file_num == WHOLE_REQUEST
            } else {
                r == ReadPlan::Start { id, path, files, overwrite_detection: OVERWRITE_DETECTION }
            },
            Err(error) => r == ReadPlan::<X>::Refuse(
                Message::TransferError { id, error, file_num: WHOLE_REQUEST },
            ),
        },
{
    match listing {
        Ok(files) => {
            if files.len() == 0 {
                ReadPlan::Refuse(
                    Message::TransferError {
                        id,
                        error: "no files".to_string(),
                        file_num: WHOLE_REQUEST,
                    },
                )
            } else {
                ReadPlan::Start { id, path, files, overwrite_detection: OVERWRITE_DETECTION }
            }
        },
        Err(error) => ReadPlan::Refuse(
            Message::TransferError { id, error, file_num: WHOLE_REQUEST },
        ),
    }
}

/// Ends the opening of a download: the job joins the table, at its end.
pub fn add_read_job<X, H>(job: TransferJob<X, H>, read_jobs: &mut Vec<TransferJob<X, H>>)
    ensures
        final(read_jobs)@ == old(read_jobs)@.push(job),
{
    read_jobs.push(job);
}

/// The write jobs after the opening of an upload: the job joins them at the end
/// if there is one.
pub open spec fn writes_with<X, H>(
    opened: Result<TransferJob<X, H>, String>,
    write_jobs: Seq<TransferJob<X, H>>,
) -> Seq<TransferJob<X, H>> {
    match opened {
        Ok(job) => write_jobs.push(job),
        Err(_) => write_jobs,
    }
}

/// The answer to the opening of an upload: none, unless it failed.
pub open spec fn open_reply<X, H>(
    id: i32,
    file_num: i32,
    opened: Result<TransferJob<X, H>, String>,
) -> Option<Message<X>> {
    match opened {
        Ok(_) => None,
        Err(error) => Some(Message::TransferError { id, error, file_num }),
    }
}

/// Ends the opening of an upload: the job joins the table, or the controller
/// learns why not.
pub fn add_write_job<X, H>(
    id: i32,
    file_num: i32,
    opened: Result<TransferJob<X, H>, String>,
    write_jobs: &mut Vec<TransferJob<X, H>>,
) -> (r: Option<Message<X>>)
    ensures
        final(write_jobs)@ == writes_with(opened, old(write_jobs)@),
        r == open_reply(id, file_num, opened),
{
    match opened {
        Ok(job) => {
            write_jobs.push(job);
            None
        },
        Err(error) => Some(Message::TransferError { id, error, file_num }),
    }
}

/// The answer to a change of the file system: done, or what went wrong.
pub open spec fn fs_reply<X>(res: Result<(), String>, id: i32, file_num: i32) -> Message<X> {
    match res {
        Ok(_) => Message::TransferDone { id, file_num },
        Err(error) => Message::TransferError { id, error, file_num },
    }
}

/// Reports a change of the file system back to the controller.
pub fn reply_fs_result<X>(res: Result<(), String>, id: i32, file_num: i32) -> (r: Message<X>)
    ensures
        r == fs_reply::<X>(res, id, file_num),
{
    match res {
        Ok(_) => Message::TransferDone { id, file_num },
        Err(error) => Message::TransferError { id, error, file_num },
    }
}

/// The answer to a block: none, unless it could not be written.
pub fn block_reply<X>(res: Result<(), String>, id: i32, file_num: i32) -> (r: Option<Message<X>>)
    ensures
        r == match res {
            Ok(_) => None,
            Err(error) => Some(Message::<X>::TransferError { id, error, file_num }),
        },
{
    match res {
        Ok(_) => None,
        Err(error) => Some(Message::TransferError { id, error, file_num }),
    }
}

/// The first job with an ID, if there is one.
pub open spec fn job_with<X, H>(jobs: Seq<TransferJob<X, H>>, id: i32) -> Option<
    TransferJob<X, H>,
> {
    let i = first_job(jobs, id);
    if 0 <= i < jobs.len() {
        Some(jobs[i])
    } else {
        None
    }
}

/// What a file action asks for, given the tables of jobs.
pub open spec fn action_step<X, H>(
    action: FileAction<X>,
    read_jobs: Seq<TransferJob<X, H>>,
    write_jobs: Seq<TransferJob<X, H>>,
) -> FileStep<X, H> {
    match action {
        FileAction::ReadDir { path, include_hidden } => FileStep::ListDir {
            target: if path@.len() == 0 {
                DirTarget::Home
            } else {
                DirTarget::Path(path)
            },
            include_hidden,
        },
        FileAction::AllFiles { id, path, include_hidden } => FileStep::ListAll {
            id,
            path,
            include_hidden,
        },
        FileAction::Send { id, path, include_hidden } => FileStep::OpenRead {
            id,
            path,
            include_hidden,
        },
        FileAction::Receive { id, path, files, file_num } => FileStep::OpenWrite {
            id,
            path,
            files,
            file_num,
            overwrite_detection: OVERWRITE_DETECTION,
        },
        FileAction::SendConfirm { id, confirm } => {
            let i = first_job(read_jobs, id);
            if i < read_jobs.len() {
                FileStep::Confirm { index: i as usize, confirm }
            } else {
                FileStep::Nothing
            }
        },
        FileAction::Cancel { id } => FileStep::Cancel {
            read: job_with(read_jobs, id),
            write: job_with(write_jobs, id),
        },
        FileAction::RemoveDir { id, path, recursive } => FileStep::RemoveDir {
            id,
            path,
            recursive,
            file_num: 0,
        },
        FileAction::RemoveFile { id, path, file_num } => FileStep::RemoveFile { id, path, file_num },
        FileAction::Create { id, path } => FileStep::CreateDir { id, path, file_num: 0 },
        FileAction::Rename { id, path, new_name } => FileStep::Rename {
            id,
            path,
            new_name,
            file_num: 0,
        },
        FileAction::Other | FileAction::Empty => FileStep::Nothing,
    }
}

/// The read jobs after a file action: a cancellation takes one away.
pub open spec fn reads_after_action<X, H>(
    action: FileAction<X>,
    read_jobs: Seq<TransferJob<X, H>>,
) -> Seq<TransferJob<X, H>> {
    match action {
        FileAction::Cancel { id } => without_job(read_jobs, id),
        _ => read_jobs,
    }
}

/// The write jobs after a file action: a cancellation takes one away.
pub open spec fn writes_after_action<X, H>(
    action: FileAction<X>,
    write_jobs: Seq<TransferJob<X, H>>,
) -> Seq<TransferJob<X, H>> {
    match action {
        FileAction::Cancel { id } => without_job(write_jobs, id),
        _ => write_jobs,
    }
}

/// Reacts to a file action: says what the file system is to do. Only a
/// cancellation changes the tables, from which it takes the jobs it concerns.
pub fn handle_file_action<X, H>(
    action: FileAction<X>,
    read_jobs: &mut Vec<TransferJob<X, H>>,
    write_jobs: &mut Vec<TransferJob<X, H>>,
) -> (r: FileStep<X, H>)
    ensures
        r == action_step(action, old(read_jobs)@, old(write_jobs)@),
        final(read_jobs)@ == reads_after_action(action, old(read_jobs)@),
        final(write_jobs)@ == writes_after_action(action, old(write_jobs)@),
{
    match action {
        FileAction::ReadDir { path, include_hidden } => FileStep::ListDir {
            target: listing_target(path),
            include_hidden,
        },
        FileAction::AllFiles { id, path, include_hidden } => FileStep::ListAll {
            id,
            path,
            include_hidden,
        },
        FileAction::Send { id, path, include_hidden } => FileStep::OpenRead {
            id,
            path,
            include_hidden,
        },
        FileAction::Receive { id, path, files, file_num } => FileStep::OpenWrite {
            id,
            path,
            files,
            file_num,
            overwrite_detection: OVERWRITE_DETECTION,
        },
        FileAction::SendConfirm { id, confirm } => match find_job(id, read_jobs) {
            Some(index) => FileStep::Confirm { index, confirm },
            None => FileStep::Nothing,
        },
        FileAction::Cancel { id } => {
            let read: Option<TransferJob<X, H>> = remove_job(id, read_jobs);
            let write: Option<TransferJob<X, H>> = remove_job(id, write_jobs);
            FileStep::Cancel { read, write }
        },
        FileAction::RemoveDir { id, path, recursive } => FileStep::RemoveDir {
            id,
            path,
            recursive,
            file_num: 0,
        },
        FileAction::RemoveFile { id, path, file_num } => FileStep::RemoveFile { id, path, file_num },
        FileAction::Create { id, path } => FileStep::CreateDir { id, path, file_num: 0 },
        FileAction::Rename { id, path, new_name } => FileStep::Rename {
            id,
            path,
            new_name,
            file_num: 0,
        },
        FileAction::Other | FileAction::Empty => FileStep::Nothing,
    }
}

/// What a controller's message about a file asks for, given the write jobs.
pub open spec fn response_step<X, H>(
    response: FileResponse<X>,
    write_jobs: Seq<TransferJob<X, H>>,
) -> FileStep<X, H> {
    match response {
        FileResponse::Block { id, file_num, block } => {
            let i = first_job(write_jobs, id);
            if i < write_jobs.len() {
                FileStep::WriteBlock { index: i as usize, file_num, block }
            } else {
                FileStep::Nothing
            }
        },
        FileResponse::Digest { id, digest } => {
            let i = first_job(write_jobs, id);
            if i < write_jobs.len() {
                FileStep::ConfirmDigest { index: i as usize, digest }
            } else {
                FileStep::Nothing
            }
        },
        FileResponse::Done { id, file_num } => match job_with(write_jobs, id) {
            Some(job) => FileStep::Finish { job, reply: Message::TransferDone { id, file_num } },
            None => FileStep::Nothing,
        },
        FileResponse::Error { id } => FileStep::Drop { dropped: job_with(write_jobs, id) },
        FileResponse::Other => FileStep::Nothing,
    }
}

/// The write jobs after a controller's message about a file: a `Done` and an
/// `Error` take one away.
pub open spec fn writes_after_response<X, H>(
    response: FileResponse<X>,
    write_jobs: Seq<TransferJob<X, H>>,
) -> Seq<TransferJob<X, H>> {
    match response {
        FileResponse::Done { id, .. } => without_job(write_jobs, id),
        FileResponse::Error { id } => without_job(write_jobs, id),
        _ => write_jobs,
    }
}

/// Reacts to a message of the controller about a file that it sends. `Done` and
/// `Error` take the job out of the table; the sender's `Done` is acknowledged
/// with one of the device's own once the file is saved.
pub fn handle_file_response<X, H>(
    response: FileResponse<X>,
    write_jobs: &mut Vec<TransferJob<X, H>>,
) -> (r: FileStep<X, H>)
    ensures
        r == response_step(response, old(write_jobs)@),
        final(write_jobs)@ == writes_after_response(response, old(write_jobs)@),
{
    match response {
        FileResponse::Block { id, file_num, block } => match find_job(id, write_jobs) {
            Some(index) => FileStep::WriteBlock { index, file_num, block },
            None => FileStep::Nothing,
        },
        FileResponse::Digest { id, digest } => match find_job(id, write_jobs) {
            Some(index) => FileStep::ConfirmDigest { index, digest },
            None => FileStep::Nothing,
        },
        FileResponse::Done { id, file_num } => match remove_job(id, write_jobs) {
            Some(job) => FileStep::Finish { job, reply: Message::TransferDone { id, file_num } },
            None => FileStep::Nothing,
        },
        FileResponse::Error { id } => FileStep::Drop { dropped: remove_job(id, write_jobs) },
        FileResponse::Other => FileStep::Nothing,
    }
}

} // verus!
