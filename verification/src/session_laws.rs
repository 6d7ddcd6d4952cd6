//! Laws of a session: who is let in, and what a session keeps.

use crate::config::ConfigView;
use crate::file_ops::{
    action_step, fs_reply, job_with, open_reply, reads_after_action, response_step, starts_read,
    writes_after_action, writes_after_response, writes_with, DirTarget, FileStep,
};
use crate::login::login_accepted;
use crate::message::{FileAction, FileResponse, Incoming, LoginRequest, Message};
use crate::outside::sha256;
use crate::session::{
    handshake_error_of, is_login_error, logs_in, reacts, read_jobs_after, refusal_of, session_after,
    starts_video, state_after, write_jobs_after, Event, HandshakeError, Reaction, Session,
    SessionView, Start,
};
use crate::status::StateView;
use crate::transfer::{lemma_first_job, without_job, TransferJob};
use crate::transfer_laws::{
    distinct_ids, is_first_with, is_without_first, law_removal_spares_other_ids,
    law_removal_takes_the_first, law_removed_job_is_gone,
};
use vstd::prelude::*;
use vstd::utf8::encode_utf8;

verus! {

/// Only a login request with the right response to the challenge is welcomed.
pub proof fn law_only_the_right_response_is_welcomed<X, H>(
    session: SessionView,
    config: ConfigView,
    event: Event<X>,
    read_jobs: Seq<TransferJob<X, H>>,
    write_jobs: Seq<TransferJob<X, H>>,
    reaction: Reaction<X, H>,
)
    ensures
        reacts(session, config, event, read_jobs, write_jobs, reaction) ==> (reaction is Welcome
            <==> (event matches Event::Message(Incoming::LoginRequest(login)) && login_accepted(
            config,
            session.salt,
            session.challenge,
            login.password@,
        ))),
{
}

/// A refused login changes nothing and is answered with an error: the session,
/// its jobs and what the window shows stay as they were, and there is no welcome
/// and no video.
pub proof fn law_refused_login_changes_nothing<X, H>(
    session: SessionView,
    config: ConfigView,
    login: LoginRequest,
    read_jobs: Seq<TransferJob<X, H>>,
    write_jobs: Seq<TransferJob<X, H>>,
    state: StateView,
    reaction: Reaction<X, H>,
)
    ensures
        ({
            let event = Event::<X>::Message(Incoming::LoginRequest(login));
            &&& !login_accepted(config, session.salt, session.challenge, login.password@)
            &&& reacts(session, config, event, read_jobs, write_jobs, reaction)
        }) ==> ({
            let event = Event::<X>::Message(Incoming::LoginRequest(login));
            &&& reaction matches Reaction::Send(m)
            &&& is_login_error(m, refusal_of(login.password@))
            &&& session_after(session, config, event) == session
            &&& !starts_video(session, config, event)
            &&& read_jobs_after(session, event, read_jobs) == read_jobs
            &&& write_jobs_after(session, event, write_jobs) == write_jobs
            &&& state_after(state, session, config, event) == state
        }),
{
}

/// A session ends when the controller closes it, when it is gone, or when
/// reading fails, and at nothing else. After its end nobody is shown as
/// connected, and no transfer as running.
pub proof fn law_what_ends_a_session<X, H>(
    session: SessionView,
    config: ConfigView,
    event: Event<X>,
    read_jobs: Seq<TransferJob<X, H>>,
    write_jobs: Seq<TransferJob<X, H>>,
    state: StateView,
    reaction: Reaction<X, H>,
)
    ensures
        reacts(session, config, event, read_jobs, write_jobs, reaction) && reaction is Close ==> ({
            let after = state_after(state, session, config, event);
            !after.peer_connected && !after.file_transfer_active && after.server_online
                == state.server_online && after.direct_listening == state.direct_listening
        }),
        reacts(session, config, event, read_jobs, write_jobs, reaction) ==> (reaction is Close <==> {
            ||| event == Event::<X>::Message(Incoming::Misc { close_reason: true })
            ||| event is ReadFailed
            ||| event is Disconnected
        }),
{
}

/// The session after a run of events.
pub open spec fn session_over<X>(
    session: SessionView,
    config: ConfigView,
    events: Seq<Event<X>>,
) -> SessionView
    decreases events.len(),
{
    if events.len() == 0 {
        session
    } else {
        session_over(session_after(session, config, events[0]), config, events.drop_first())
    }
}

/// Salt and challenge stay the same throughout a session, and neither the login
/// nor the video stream is taken back.
pub proof fn law_session_keeps_its_challenge<X>(
    session: SessionView,
    config: ConfigView,
    events: Seq<Event<X>>,
)
    ensures
        session_over(session, config, events).salt == session.salt,
        session_over(session, config, events).challenge == session.challenge,
        session.logged_in ==> session_over(session, config, events).logged_in,
        session.video_started ==> session_over(session, config, events).video_started,
    decreases events.len(),
{
    if events.len() > 0 {
        law_session_keeps_its_challenge(
            session_after(session, config, events[0]),
            config,
            events.drop_first(),
        );
    }
}

/// The read jobs after a run of events.
pub open spec fn reads_over<X, H>(
    session: SessionView,
    config: ConfigView,
    events: Seq<Event<X>>,
    read_jobs: Seq<TransferJob<X, H>>,
) -> Seq<TransferJob<X, H>>
    decreases events.len(),
{
    if events.len() == 0 {
        read_jobs
    } else {
        reads_over(
            session_after(session, config, events[0]),
            config,
            events.drop_first(),
            read_jobs_after(session, events[0], read_jobs),
        )
    }
}

/// The write jobs after a run of events.
pub open spec fn writes_over<X, H>(
    session: SessionView,
    config: ConfigView,
    events: Seq<Event<X>>,
    write_jobs: Seq<TransferJob<X, H>>,
) -> Seq<TransferJob<X, H>>
    decreases events.len(),
{
    if events.len() == 0 {
        write_jobs
    } else {
        writes_over(
            session_after(session, config, events[0]),
            config,
            events.drop_first(),
            write_jobs_after(session, events[0], write_jobs),
        )
    }
}

/// Login comes first: as long as nobody has logged in, no event makes a session
/// pass input on or do file work, and the jobs stay as they were; without jobs
/// the pump rests.
pub proof fn law_login_comes_first<X, H>(
    session: SessionView,
    config: ConfigView,
    events: Seq<Event<X>>,
    read_jobs: Seq<TransferJob<X, H>>,
    write_jobs: Seq<TransferJob<X, H>>,
    event: Event<X>,
    reaction: Reaction<X, H>,
)
    ensures
        ({
            &&& !session.logged_in
            &&& forall|i: int|
                0 <= i < events.len() ==> !logs_in(session, config, #[trigger] events[i])
        }) ==> ({
            let now = session_over(session, config, events);
            &&& !now.logged_in
            &&& reads_over(session, config, events, read_jobs) == read_jobs
            &&& writes_over(session, config, events, write_jobs) == write_jobs
            &&& read_jobs_after(now, event, read_jobs) == read_jobs
            &&& write_jobs_after(now, event, write_jobs) == write_jobs
            &&& reacts(now, config, event, read_jobs, write_jobs, reaction) ==> reaction !is Mouse
                && reaction !is Key && reaction !is File && (read_jobs.len() == 0 ==> reaction
                !is Pump)
        }),
    decreases events.len(),
{
    if events.len() > 0 {
        let rest = events.drop_first();
        let next = session_after(session, config, events[0]);
        law_login_comes_first(next, config, rest, read_jobs, write_jobs, event, reaction);
        if !session.logged_in && forall|i: int|
            0 <= i < events.len() ==> !logs_in(session, config, #[trigger] events[i]) {
            assert forall|i: int| 0 <= i < rest.len() implies !logs_in(
                next,
                config,
                #[trigger] rest[i],
            ) by {
                assert(!logs_in(session, config, events[i + 1]));
            }
        }
    }
}

/// Only the right response logs in, and from then on the session is logged in.
pub proof fn law_welcome_is_the_login<X, H>(
    session: SessionView,
    config: ConfigView,
    event: Event<X>,
    read_jobs: Seq<TransferJob<X, H>>,
    write_jobs: Seq<TransferJob<X, H>>,
    reaction: Reaction<X, H>,
)
    ensures
        reacts(session, config, event, read_jobs, write_jobs, reaction) ==> session_after(
            session,
            config,
            event,
        ).logged_in == (session.logged_in || reaction is Welcome),
{
}

/// The video stream goes to those who asked for the screen: a login for file
/// transfer starts none, and another one starts it the first time.
pub proof fn law_file_transfer_starts_no_video<X, H>(
    session: SessionView,
    config: ConfigView,
    login: LoginRequest,
    read_jobs: Seq<TransferJob<X, H>>,
    write_jobs: Seq<TransferJob<X, H>>,
    reaction: Reaction<X, H>,
)
    ensures
        ({
            let event = Event::<X>::Message(Incoming::LoginRequest(login));
            &&& login_accepted(config, session.salt, session.challenge, login.password@)
            &&& reacts(session, config, event, read_jobs, write_jobs, reaction)
        }) ==> ({
            &&& reaction matches Reaction::Welcome { name, start }
            &&& start is Video <==> login.file_transfer is None && !session.video_started
            &&& start is ListDir <==> login.file_transfer is Some
        }),
{
}

/// Where IDs are not shared, a job that a controller cancels after its login is
/// gone from both tables, and what is found under any other ID stays as it was.
pub proof fn law_cancel_removes_one_job<X, H>(
    session: SessionView,
    read_jobs: Seq<TransferJob<X, H>>,
    write_jobs: Seq<TransferJob<X, H>>,
    id: i32,
    other: i32,
)
    requires
        session.logged_in,
        distinct_ids(read_jobs),
        distinct_ids(write_jobs),
        other != id,
    ensures
        ({
            let event = Event::<X>::Message(Incoming::FileAction(FileAction::Cancel { id }));
            let reads = read_jobs_after(session, event, read_jobs);
            let writes = write_jobs_after(session, event, write_jobs);
            &&& job_with(reads, id) is None
            &&& job_with(writes, id) is None
            &&& job_with(reads, other) == job_with(read_jobs, other)
            &&& job_with(writes, other) == job_with(write_jobs, other)
        }),
{
    law_removed_job_is_gone(read_jobs, id);
    law_removed_job_is_gone(write_jobs, id);
    law_removal_spares_other_ids(read_jobs, id, other);
    law_removal_spares_other_ids(write_jobs, id, other);
}

/// The read jobs once the file system has done its part of a step, where
/// `listing` is what it found and `job` the job that was opened for it.
pub open spec fn reads_after_work<X, H>(
    step: FileStep<X, H>,
    read_jobs: Seq<TransferJob<X, H>>,
    listing: Result<Vec<X>, String>,
    job: TransferJob<X, H>,
) -> Seq<TransferJob<X, H>> {
    if step is OpenRead && starts_read(listing) {
        read_jobs.push(job)
    } else {
        read_jobs
    }
}

/// The write jobs once the file system has done its part of a step, where
/// `opened` is what became of an upload.
pub open spec fn writes_after_work<X, H>(
    step: FileStep<X, H>,
    write_jobs: Seq<TransferJob<X, H>>,
    opened: Result<TransferJob<X, H>, String>,
) -> Seq<TransferJob<X, H>> {
    if step is OpenWrite {
        writes_with(opened, write_jobs)
    } else {
        write_jobs
    }
}

/// How a file action changes the tables. The read jobs grow only on a download
/// that starts, by one job at the end. The write jobs grow only on an upload that
/// could be opened, by one job at the end; one that could not be is answered with
/// an error for its job and file. Jobs leave only on a cancellation. Any other
/// action keeps both tables.
pub proof fn law_tables_grow_on_request_only<X, H>(
    action: FileAction<X>,
    read_jobs: Seq<TransferJob<X, H>>,
    write_jobs: Seq<TransferJob<X, H>>,
    listing: Result<Vec<X>, String>,
    job: TransferJob<X, H>,
    opened: Result<TransferJob<X, H>, String>,
)
    ensures
        ({
            let step = action_step(action, read_jobs, write_jobs);
            let reads = reads_after_work(
                step,
                reads_after_action(action, read_jobs),
                listing,
                job,
            );
            let writes = writes_after_work(step, writes_after_action(action, write_jobs), opened);
            match action {
                FileAction::Send { id, path, include_hidden } => {
                    &&& step == (FileStep::<X, H>::OpenRead { id, path, include_hidden })
                    &&& starts_read(listing) ==> reads == read_jobs.push(job)
                    &&& !starts_read(listing) ==> reads == read_jobs
                    &&& writes == write_jobs
                },
                FileAction::Receive { id, path, files, file_num } => {
                    &&& step == (FileStep::<X, H>::OpenWrite {
                        id,
                        path,
                        files,
                        file_num,
                        overwrite_detection: false,
                    })
                    &&& reads == read_jobs
                    &&& match opened {
                        Ok(new) => writes == write_jobs.push(new) && open_reply(
                            id,
                            file_num,
                            opened,
                        ) is None,
                        Err(error) => writes == write_jobs && open_reply(id, file_num, opened)
                            == Some(Message::<X>::TransferError { id, error, file_num }),
                    }
                },
                FileAction::Cancel { id } => {
                    &&& reads == without_job(read_jobs, id)
                    &&& writes == without_job(write_jobs, id)
                },
                _ => reads == read_jobs && writes == write_jobs,
            }
        }),
{
}

/// The sender's `Done` is acknowledged with a `Done` for the same job and file
/// if the job is known, and ignored if not.
pub proof fn law_done_is_acknowledged<X, H>(
    write_jobs: Seq<TransferJob<X, H>>,
    id: i32,
    file_num: i32,
)
    ensures
        match response_step(FileResponse::Done { id, file_num }, write_jobs) {
            FileStep::Finish { job, reply } => {
                &&& job_with(write_jobs, id) == Some(job)
                &&& job.id == id
                &&& reply == Message::<X>::TransferDone { id, file_num }
            },
            FileStep::Nothing => job_with(write_jobs, id) is None,
            _ => false,
        },
{
    lemma_first_job(write_jobs, id);
}

/// A change of the file system is answered under the ID of its request, with
/// `Done` exactly if it succeeded.
pub proof fn law_change_is_answered<X>(res: Result<(), String>, id: i32, file_num: i32)
    ensures
        match fs_reply::<X>(res, id, file_num) {
            Message::TransferDone { id: i, file_num: n } => res is Ok && i == id && n == file_num,
            Message::TransferError { id: i, error, file_num: n } => res == Err::<(), String>(error)
                && i == id && n == file_num,
            _ => false,
        },
{
}

/// Nothing that concerns a job which the tables do not hold has an effect.
pub proof fn law_unknown_jobs_are_ignored<X, H>(
    session: SessionView,
    read_jobs: Seq<TransferJob<X, H>>,
    write_jobs: Seq<TransferJob<X, H>>,
    id: i32,
    file_num: i32,
    payload: X,
)
    requires
        job_with(read_jobs, id) is None,
        job_with(write_jobs, id) is None,
    ensures
        action_step(FileAction::SendConfirm { id, confirm: payload }, read_jobs, write_jobs)
            is Nothing,
        action_step(FileAction::<X>::Cancel { id }, read_jobs, write_jobs) == (FileStep::<
            X,
            H,
        >::Cancel { read: None, write: None }),
        response_step(FileResponse::Block { id, file_num, block: payload }, write_jobs) is Nothing,
        response_step(FileResponse::Digest { id, digest: payload }, write_jobs) is Nothing,
        response_step(FileResponse::<X>::Done { id, file_num }, write_jobs) is Nothing,
        response_step(FileResponse::<X>::Error { id }, write_jobs) == (FileStep::<X, H>::Drop {
            dropped: None,
        }),
        read_jobs_after(
            session,
            Event::<X>::Message(Incoming::FileAction(FileAction::Cancel { id })),
            read_jobs,
        ) == read_jobs,
        write_jobs_after(
            session,
            Event::<X>::Message(Incoming::FileAction(FileAction::Cancel { id })),
            write_jobs,
        ) == write_jobs,
        write_jobs_after(
            session,
            Event::<X>::Message(Incoming::FileResponse(FileResponse::Done { id, file_num })),
            write_jobs,
        ) == write_jobs,
        write_jobs_after(
            session,
            Event::<X>::Message(Incoming::FileResponse(FileResponse::Error { id })),
            write_jobs,
        ) == write_jobs,
{
    lemma_first_job(read_jobs, id);
    lemma_first_job(write_jobs, id);
}

/// The work that each file action asks for, field by field. Every request is
/// carried out as it was made: on its own path, under its own ID, and no more of
/// it than it says.
pub proof fn law_work_of_an_action<X, H>(
    action: FileAction<X>,
    read_jobs: Seq<TransferJob<X, H>>,
    write_jobs: Seq<TransferJob<X, H>>,
)
    requires
        read_jobs.len() <= usize::MAX,
    ensures
        match (action, action_step(action, read_jobs, write_jobs)) {
            (
                FileAction::ReadDir { path, include_hidden },
                FileStep::ListDir { target, include_hidden: h },
            ) => {
                &&& h == include_hidden
                &&& path@.len() == 0 ==> target is Home
                &&& path@.len() > 0 ==> target == DirTarget::Path(path)
            },
            (
                FileAction::AllFiles { id, path, include_hidden },
                FileStep::ListAll { id: i, path: p, include_hidden: h },
            ) => i == id && p == path && h == include_hidden,
            (
                FileAction::Send { id, path, include_hidden },
                FileStep::OpenRead { id: i, path: p, include_hidden: h },
            ) => i == id && p == path && h == include_hidden,
            (
                FileAction::Receive { id, path, files, file_num },
                FileStep::OpenWrite {
                    id: i,
                    path: p,
                    files: f,
                    file_num: n,
                    overwrite_detection,
                },
            ) => i == id && p == path && f == files && n == file_num && !overwrite_detection,
            (FileAction::SendConfirm { id, confirm }, FileStep::Confirm { index, confirm: c }) => {
                &&& c == confirm
                &&& index < read_jobs.len()
                &&& read_jobs[index as int].id == id
                &&& forall|j: int| 0 <= j < index ==> (#[trigger] read_jobs[j]).id != id
            },
            (FileAction::SendConfirm { id, confirm }, FileStep::Nothing) => forall|j: int|
                0 <= j < read_jobs.len() ==> (#[trigger] read_jobs[j]).id != id,
            (FileAction::Cancel { id }, FileStep::Cancel { read, write }) => is_first_with(
                read_jobs,
                id,
                read,
            ) && is_first_with(write_jobs, id, write),
            (
                FileAction::RemoveDir { id, path, recursive },
                FileStep::RemoveDir { id: i, path: p, recursive: r, file_num },
            ) => i == id && p == path && r == recursive && file_num == 0,
            (
                FileAction::RemoveFile { id, path, file_num },
                FileStep::RemoveFile { id: i, path: p, file_num: n },
            ) => i == id && p == path && n == file_num,
            (
                FileAction::Create { id, path },
                FileStep::CreateDir { id: i, path: p, file_num },
            ) => i == id && p == path && file_num == 0,
            (
                FileAction::Rename { id, path, new_name },
                FileStep::Rename { id: i, path: p, new_name: n, file_num },
            ) => i == id && p == path && n == new_name && file_num == 0,
            (FileAction::Other, FileStep::Nothing) => true,
            (FileAction::Empty, FileStep::Nothing) => true,
            _ => false,
        },
{
    match action {
        FileAction::SendConfirm { id, confirm } => {
            lemma_first_job(read_jobs, id);
        },
        FileAction::Cancel { id } => {
            lemma_first_job(read_jobs, id);
            lemma_first_job(write_jobs, id);
        },
        _ => {},
    }
}

/// The work that each message about a file of the controller asks for, field by
/// field.
pub proof fn law_work_of_a_response<X, H>(
    response: FileResponse<X>,
    write_jobs: Seq<TransferJob<X, H>>,
)
    requires
        write_jobs.len() <= usize::MAX,
    ensures
        match (response, response_step(response, write_jobs)) {
            (
                FileResponse::Block { id, file_num, block },
                FileStep::WriteBlock { index, file_num: n, block: b },
            ) => {
                &&& n == file_num
                &&& b == block
                &&& index < write_jobs.len()
                &&& write_jobs[index as int].id == id
                &&& forall|j: int| 0 <= j < index ==> (#[trigger] write_jobs[j]).id != id
            },
            (FileResponse::Block { id, .. }, FileStep::Nothing) => forall|j: int|
                0 <= j < write_jobs.len() ==> (#[trigger] write_jobs[j]).id != id,
            (
                FileResponse::Digest { id, digest },
                FileStep::ConfirmDigest { index, digest: d },
            ) => {
                &&& d == digest
                &&& index < write_jobs.len()
                &&& write_jobs[index as int].id == id
                &&& forall|j: int| 0 <= j < index ==> (#[trigger] write_jobs[j]).id != id
            },
            (FileResponse::Digest { id, .. }, FileStep::Nothing) => forall|j: int|
                0 <= j < write_jobs.len() ==> (#[trigger] write_jobs[j]).id != id,
            (FileResponse::Done { id, file_num }, FileStep::Finish { job, reply }) => {
                &&& is_first_with(write_jobs, id, Some(job))
                &&& reply == Message::<X>::TransferDone { id, file_num }
            },
            (FileResponse::Done { id, .. }, FileStep::Nothing) => forall|j: int|
                0 <= j < write_jobs.len() ==> (#[trigger] write_jobs[j]).id != id,
            (FileResponse::Error { id }, FileStep::Drop { dropped }) => is_first_with(
                write_jobs,
                id,
                dropped,
            ),
            (FileResponse::Other, FileStep::Nothing) => true,
            _ => false,
        },
{
    match response {
        FileResponse::Block { id, .. } => lemma_first_job(write_jobs, id),
        FileResponse::Digest { id, .. } => lemma_first_job(write_jobs, id),
        FileResponse::Done { id, .. } => lemma_first_job(write_jobs, id),
        FileResponse::Error { id } => lemma_first_job(write_jobs, id),
        FileResponse::Other => {},
    }
}

/// How the messages about files change the table of write jobs: a `Done` and an
/// `Error` take the first job with their ID away, the others nothing.
pub proof fn law_responses_and_the_table<X, H>(
    response: FileResponse<X>,
    write_jobs: Seq<TransferJob<X, H>>,
)
    ensures
        match response {
            FileResponse::Done { id, .. } => is_without_first(
                write_jobs,
                id,
                writes_after_response(response, write_jobs),
            ),
            FileResponse::Error { id } => is_without_first(
                write_jobs,
                id,
                writes_after_response(response, write_jobs),
            ),
            _ => writes_after_response(response, write_jobs) == write_jobs,
        },
{
    match response {
        FileResponse::Done { id, .. } => law_removal_takes_the_first(write_jobs, id),
        FileResponse::Error { id } => law_removal_takes_the_first(write_jobs, id),
        _ => {},
    }
}

/// Before the login no message changes the tables; after it they change as the
/// message about files says, and on nothing else.
pub proof fn law_tables_and_events<X, H>(
    session: SessionView,
    event: Event<X>,
    read_jobs: Seq<TransferJob<X, H>>,
    write_jobs: Seq<TransferJob<X, H>>,
)
    ensures
        ({
            let reads = read_jobs_after(session, event, read_jobs);
            let writes = write_jobs_after(session, event, write_jobs);
            match event {
                Event::Message(Incoming::FileAction(FileAction::Cancel { id })) => if session.logged_in {
                    is_without_first(read_jobs, id, reads) && is_without_first(
                        write_jobs,
                        id,
                        writes,
                    )
                } else {
                    reads == read_jobs && writes == write_jobs
                },
                Event::Message(Incoming::FileResponse(FileResponse::Done { id, .. })) => {
                    &&& reads == read_jobs
                    &&& session.logged_in ==> is_without_first(write_jobs, id, writes)
                    &&& !session.logged_in ==> writes == write_jobs
                },
                Event::Message(Incoming::FileResponse(FileResponse::Error { id })) => {
                    &&& reads == read_jobs
                    &&& session.logged_in ==> is_without_first(write_jobs, id, writes)
                    &&& !session.logged_in ==> writes == write_jobs
                },
                _ => reads == read_jobs && writes == write_jobs,
            }
        }),
{
    match event {
        Event::Message(Incoming::FileAction(FileAction::Cancel { id })) => {
            law_removal_takes_the_first(read_jobs, id);
            law_removal_takes_the_first(write_jobs, id);
        },
        Event::Message(Incoming::FileResponse(response)) => {
            law_responses_and_the_table(response, write_jobs);
        },
        _ => {},
    }
}

/// What a session does about each event. Every picture of the encoder is sent,
/// key picture or not, as the one picture of a message for the first display.
/// After the login, input is passed on as it came. A ping is answered with the
/// delay that it brought. The pump runs at a tick if there are read jobs.
pub proof fn law_reactions<X, H>(
    session: SessionView,
    config: ConfigView,
    event: Event<X>,
    read_jobs: Seq<TransferJob<X, H>>,
    write_jobs: Seq<TransferJob<X, H>>,
    reaction: Reaction<X, H>,
)
    ensures
        reacts(session, config, event, read_jobs, write_jobs, reaction) ==> match event {
            Event::Video(Some(frame)) => {
                &&& reaction matches Reaction::Send(Message::VideoFrame { display, h264s })
                &&& display == 0
                &&& h264s@.len() == 1
                &&& h264s@[0] == frame
            },
            Event::Video(None) => reaction is Ignore,
            Event::Tick => if read_jobs.len() > 0 {
                reaction is Pump
            } else {
                reaction is Ignore
            },
            Event::Unreadable => reaction is Ignore,
            Event::ReadFailed => reaction is Close,
            Event::Disconnected => reaction is Close,
            Event::Message(Incoming::MouseEvent(x)) => {
                &&& session.logged_in ==> (reaction matches Reaction::Mouse(y) && y == x)
                &&& !session.logged_in ==> reaction is Ignore
            },
            Event::Message(Incoming::KeyEvent(x)) => {
                &&& session.logged_in ==> (reaction matches Reaction::Key(y) && y == x)
                &&& !session.logged_in ==> reaction is Ignore
            },
            Event::Message(Incoming::TestDelay { last_delay }) => {
                &&& reaction matches Reaction::Send(
                    Message::TestDelay { from_client, last_delay: d },
                )
                &&& !from_client
                &&& d == last_delay
            },
            Event::Message(Incoming::Misc { close_reason }) => if close_reason {
                reaction is Close
            } else {
                reaction is Ignore
            },
            Event::Message(Incoming::FileAction(action)) => {
                &&& session.logged_in ==> (reaction matches Reaction::File(step) && step
                    == action_step(action, read_jobs, write_jobs))
                &&& !session.logged_in ==> reaction is Ignore
            },
            Event::Message(Incoming::FileResponse(response)) => {
                &&& session.logged_in ==> (reaction matches Reaction::File(step) && step
                    == response_step(response, write_jobs))
                &&& !session.logged_in ==> reaction is Ignore
            },
            Event::Message(Incoming::LoginRequest(login)) => if login.password@ == sha256(
                sha256(encode_utf8(config.password) + encode_utf8(session.salt)) + encode_utf8(
                    session.challenge,
                ),
            ) {
                &&& reaction matches Reaction::Welcome { name, start }
                &&& name == login.my_name
                &&& match login.file_transfer {
                    Some(ft) => start == (Start::ListDir {
                        dir: ft.dir,
                        show_hidden: ft.show_hidden,
                    }),
                    None => if session.video_started {
                        start is Nothing
                    } else {
                        start is Video
                    },
                }
            } else {
                &&& reaction matches Reaction::Send(Message::LoginError { error })
                &&& login.password@.len() == 0 ==> error@ == "Empty Password"@
                &&& login.password@.len() > 0 ==> error@ == "Wrong Password"@
            },
            Event::Message(Incoming::PublicKey(_)) => reaction is Ignore,
            Event::Message(Incoming::Other) => reaction is Ignore,
            Event::Message(Incoming::Empty) => reaction is Ignore,
        },
{
}

/// What an event changes in a session. Only a login request with the right
/// response changes anything: the controller is logged in, and has the video
/// stream unless it came for files.
pub proof fn law_session_and_events<X>(
    session: SessionView,
    config: ConfigView,
    event: Event<X>,
)
    ensures
        ({
            let next = session_after(session, config, event);
            let expected = sha256(
                sha256(encode_utf8(config.password) + encode_utf8(session.salt)) + encode_utf8(
                    session.challenge,
                ),
            );
            &&& next.salt == session.salt
            &&& next.challenge == session.challenge
            &&& match event {
                Event::Message(Incoming::LoginRequest(login)) => if login.password@ == expected {
                    &&& next.logged_in
                    &&& next.video_started == (session.video_started
                        || login.file_transfer is None)
                } else {
                    next == session
                },
                _ => next == session,
            }
        }),
{
}

/// What an event changes in what the window shows. A controller that logs in is
/// shown with its name; the end of a session clears controller and transfer.
/// Server and listener are never touched.
pub proof fn law_window_and_events<X>(
    state: StateView,
    session: SessionView,
    config: ConfigView,
    event: Event<X>,
)
    ensures
        ({
            let next = state_after(state, session, config, event);
            let expected = sha256(
                sha256(encode_utf8(config.password) + encode_utf8(session.salt)) + encode_utf8(
                    session.challenge,
                ),
            );
            let over = {
                ||| event == Event::<X>::Message(Incoming::Misc { close_reason: true })
                ||| event is ReadFailed
                ||| event is Disconnected
            };
            &&& next.server_online == state.server_online
            &&& next.direct_listening == state.direct_listening
            &&& over ==> {
                &&& !next.peer_connected
                &&& next.peer_name.len() == 0
                &&& !next.file_transfer_active
                &&& next.file_transfer_label.len() == 0
            }
            &&& !over ==> {
                &&& next.file_transfer_active == state.file_transfer_active
                &&& next.file_transfer_label == state.file_transfer_label
                &&& match event {
                    Event::Message(Incoming::LoginRequest(login)) => if login.password@
                        == expected {
                        next.peer_connected && next.peer_name == login.my_name@
                    } else {
                        next == state
                    },
                    _ => next == state,
                }
            }
        }),
{
}

/// What is said of a failed key exchange.
pub proof fn law_handshake_errors(error: HandshakeError)
    ensures
        match error {
            HandshakeError::EmptyFrame => handshake_error_of(error) == "handshake: empty frame"@,
            HandshakeError::Read(e) => handshake_error_of(error) == "handshake read error: "@ + e@,
            HandshakeError::Closed => handshake_error_of(error)
                == "handshake: peer closed before PublicKey"@,
            HandshakeError::NotPublicKey => handshake_error_of(error) == "expected PublicKey"@,
        },
{
}

/// The view of a session is its fields.
pub proof fn law_session_view(session: Session)
    ensures
        session@.salt == session.salt@,
        session@.challenge == session.challenge@,
        session@.logged_in == session.logged_in,
        session@.video_started == session.video_started,
{
}

} // verus!
