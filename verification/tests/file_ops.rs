use quicksupport::file_ops::{
    add_read_job, add_write_job, all_files_reply, block_reply, handle_file_action, handle_file_response,
    initial_dir, listing_reply, listing_target, plan_read, reply_fs_result, DirTarget, FileStep,
    ReadPlan,
};
use quicksupport::message::{FileAction, FileResponse, Message};
use quicksupport::transfer::TransferJob;

type Job = TransferJob<u8, ()>;

fn job(id: i32) -> Job {
    TransferJob {
        id,
        file_num: 0,
        is_read: false,
        done: false,
        name: String::new(),
        total_size: 0,
        finished_size: 0,
        pending: None,
        handle: (),
    }
}

fn text(s: &str) -> String {
    s.to_string()
}

fn failure(m: Message<u8>) -> (i32, String, i32) {
    match m {
        Message::TransferError { id, error, file_num } => (id, error, file_num),
        _ => panic!("not an error message"),
    }
}

fn act(action: FileAction<u8>) -> FileStep<u8, ()> {
    let mut reads = vec![job(1), job(2)];
    let mut writes = vec![job(2), job(3)];
    let step = handle_file_action(action, &mut reads, &mut writes);
    assert_eq!((reads.len(), writes.len()), (2, 2));
    step
}

#[test]
fn an_empty_path_means_the_home_directory() {
    assert!(matches!(listing_target(String::new()), DirTarget::Home));
    assert!(matches!(listing_target(text("/")), DirTarget::Path(p) if p == "/"));
    assert_eq!(initial_dir(text("/srv"), true), "/srv");
    assert_eq!(initial_dir(text("/nowhere"), false), "");
    assert_eq!(initial_dir(String::new(), true), "");
}

#[test]
fn browsing_answers() {
    match listing_reply(Ok((text("/srv"), vec![1u8, 2]))) {
        Message::Dir { id, path, entries } => {
            assert_eq!((id, path.as_str(), entries.len()), (0, "/srv", 2));
        }
        _ => panic!("not a listing"),
    }
    assert_eq!(failure(listing_reply(Err(text("denied")))), (0, text("denied"), 0));
    match all_files_reply(5, text("/srv"), Ok(vec![1u8])) {
        Message::Dir { id, path, entries } => {
            assert_eq!((id, path.as_str(), entries.len()), (5, "/srv", 1));
        }
        _ => panic!("not a listing"),
    }
    let failed = all_files_reply(5, text("/srv"), Err(text("denied")));
    assert_eq!(failure(failed), (5, text("denied"), -1));
}

#[test]
fn a_download_starts_if_there_are_files() {
    match plan_read(4, text("/a"), Ok(vec![1u8, 2, 3])) {
        ReadPlan::Start { id, path, files, overwrite_detection } => {
            assert_eq!((id, path.as_str(), files.len(), overwrite_detection), (4, "/a", 3, false));
        }
        ReadPlan::Refuse(_) => panic!("there are files"),
    }
    match plan_read::<u8>(4, text("/a"), Ok(Vec::new())) {
        ReadPlan::Refuse(m) => assert_eq!(failure(m), (4, text("no files"), -1)),
        ReadPlan::Start { .. } => panic!("there are no files"),
    }
    match plan_read::<u8>(4, text("/a"), Err(text("gone"))) {
        ReadPlan::Refuse(m) => assert_eq!(failure(m), (4, text("gone"), -1)),
        ReadPlan::Start { .. } => panic!("the listing failed"),
    }
}

#[test]
fn a_download_joins_the_table_at_its_end() {
    let mut jobs = vec![job(1)];
    add_read_job(job(7), &mut jobs);
    add_read_job(job(3), &mut jobs);
    assert_eq!(jobs.iter().map(|j| j.id).collect::<Vec<i32>>(), [1, 7, 3]);
}

#[test]
fn an_upload_joins_the_table_or_is_refused() {
    let mut jobs = vec![job(1)];
    assert!(add_write_job(2, 7, Ok(job(2)), &mut jobs).is_none());
    assert_eq!(jobs[1].id, 2);
    let refused = add_write_job(3, 7, Err(text("read-only")), &mut jobs).unwrap();
    assert_eq!(failure(refused), (3, text("read-only"), 7));
    assert_eq!(jobs.len(), 2);
}

#[test]
fn changes_of_the_file_system_are_answered() {
    let done = reply_fs_result::<u8>(Ok(()), 8, 2);
    assert!(matches!(done, Message::TransferDone { id: 8, file_num: 2 }));
    assert_eq!(failure(reply_fs_result(Err(text("busy")), 8, 2)), (8, text("busy"), 2));
    assert!(block_reply::<u8>(Ok(()), 8, 2).is_none());
    assert_eq!(failure(block_reply(Err(text("full")), 8, 2).unwrap()), (8, text("full"), 2));
}

#[test]
fn file_actions_become_work_for_the_file_system() {
    match act(FileAction::ReadDir { path: text("/d"), include_hidden: true }) {
        FileStep::ListDir { target: DirTarget::Path(p), include_hidden } => {
            assert_eq!((p.as_str(), include_hidden), ("/d", true));
        }
        _ => panic!("a listing was asked for"),
    }
    let home = act(FileAction::ReadDir { path: String::new(), include_hidden: false });
    assert!(matches!(home, FileStep::ListDir { target: DirTarget::Home, include_hidden: false }));
    match act(FileAction::AllFiles { id: 9, path: text("/d"), include_hidden: true }) {
        FileStep::ListAll { id, path, include_hidden } => {
            assert_eq!((id, path.as_str(), include_hidden), (9, "/d", true));
        }
        _ => panic!("all files were asked for"),
    }
    match act(FileAction::Send { id: 9, path: text("/d"), include_hidden: false }) {
        FileStep::OpenRead { id, path, include_hidden } => {
            assert_eq!((id, path.as_str(), include_hidden), (9, "/d", false));
        }
        _ => panic!("a download was asked for"),
    }
    match act(FileAction::Receive { id: 9, path: text("/d"), files: vec![1, 2], file_num: 4 }) {
        FileStep::OpenWrite { id, path, files, file_num, overwrite_detection } => {
            assert_eq!((id, path.as_str(), files.len(), file_num), (9, "/d", 2, 4));
            assert!(!overwrite_detection);
        }
        _ => panic!("an upload was asked for"),
    }
    match act(FileAction::RemoveDir { id: 9, path: text("/d"), recursive: true }) {
        FileStep::RemoveDir { id, path, recursive, file_num } => {
            assert_eq!((id, path.as_str(), recursive, file_num), (9, "/d", true, 0));
        }
        _ => panic!("a directory was to be removed"),
    }
    match act(FileAction::RemoveFile { id: 9, path: text("/f"), file_num: 6 }) {
        FileStep::RemoveFile { id, path, file_num } => {
            assert_eq!((id, path.as_str(), file_num), (9, "/f", 6));
        }
        _ => panic!("a file was to be removed"),
    }
    match act(FileAction::Create { id: 9, path: text("/d") }) {
        FileStep::CreateDir { id, path, file_num } => {
            assert_eq!((id, path.as_str(), file_num), (9, "/d", 0));
        }
        _ => panic!("a directory was to be created"),
    }
    match act(FileAction::Rename { id: 9, path: text("/d"), new_name: text("e") }) {
        FileStep::Rename { id, path, new_name, file_num } => {
            assert_eq!((id, path.as_str(), new_name.as_str(), file_num), (9, "/d", "e", 0));
        }
        _ => panic!("a name was to be changed"),
    }
    assert!(matches!(act(FileAction::Other), FileStep::Nothing));
    assert!(matches!(act(FileAction::Empty), FileStep::Nothing));
}

#[test]
fn confirmations_go_to_the_read_job() {
    let confirm = act(FileAction::SendConfirm { id: 2, confirm: 77 });
    assert!(matches!(confirm, FileStep::Confirm { index: 1, confirm: 77 }));
    let unknown = act(FileAction::SendConfirm { id: 3, confirm: 77 });
    assert!(matches!(unknown, FileStep::Nothing));
}

#[test]
fn a_cancelled_job_is_gone_from_both_tables() {
    let mut reads = vec![job(1), job(2)];
    let mut writes = vec![job(2), job(3)];
    match handle_file_action(FileAction::Cancel { id: 2 }, &mut reads, &mut writes) {
        FileStep::Cancel { read: Some(r), write: Some(w) } => assert_eq!((r.id, w.id), (2, 2)),
        _ => panic!("both jobs are cancelled"),
    }
    assert_eq!((reads.len(), reads[0].id), (1, 1));
    assert_eq!((writes.len(), writes[0].id), (1, 3));
    let again = handle_file_action(FileAction::Cancel { id: 2 }, &mut reads, &mut writes);
    assert!(matches!(again, FileStep::Cancel { read: None, write: None }));
    assert_eq!((reads.len(), writes.len()), (1, 1));
}

#[test]
fn blocks_and_digests_go_to_the_write_job() {
    let mut jobs = vec![job(2), job(3)];
    let block = FileResponse::Block { id: 3, file_num: 5, block: 42 };
    let step = handle_file_response(block, &mut jobs);
    assert!(matches!(step, FileStep::WriteBlock { index: 1, file_num: 5, block: 42 }));
    let step = handle_file_response(FileResponse::Digest { id: 2, digest: 43 }, &mut jobs);
    assert!(matches!(step, FileStep::ConfirmDigest { index: 0, digest: 43 }));
    let block = FileResponse::Block { id: 9, file_num: 5, block: 42 };
    assert!(matches!(handle_file_response(block, &mut jobs), FileStep::Nothing));
    let digest = FileResponse::Digest { id: 9, digest: 43 };
    assert!(matches!(handle_file_response(digest, &mut jobs), FileStep::Nothing));
    assert!(matches!(handle_file_response(FileResponse::Other, &mut jobs), FileStep::Nothing));
    assert_eq!(jobs.len(), 2);
}

#[test]
fn the_senders_done_is_acknowledged() {
    let mut jobs = vec![job(2), job(3)];
    match handle_file_response(FileResponse::Done { id: 2, file_num: 1 }, &mut jobs) {
        FileStep::Finish { job, reply } => {
            assert_eq!(job.id, 2);
            assert!(matches!(reply, Message::TransferDone { id: 2, file_num: 1 }));
        }
        _ => panic!("the job is known"),
    }
    assert_eq!((jobs.len(), jobs[0].id), (1, 3));
    let step = handle_file_response(FileResponse::Done { id: 2, file_num: 1 }, &mut jobs);
    assert!(matches!(step, FileStep::Nothing));
    assert_eq!(jobs.len(), 1);
}

#[test]
fn an_error_of_the_sender_drops_the_job() {
    let mut jobs = vec![job(2), job(3)];
    match handle_file_response(FileResponse::Error { id: 3 }, &mut jobs) {
        FileStep::Drop { dropped: Some(j) } => assert_eq!(j.id, 3),
        _ => panic!("the job is known"),
    }
    assert_eq!(jobs.len(), 1);
    let step = handle_file_response(FileResponse::Error { id: 3 }, &mut jobs);
    assert!(matches!(step, FileStep::Drop { dropped: None }));
}
