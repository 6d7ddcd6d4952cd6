use quicksupport::message::Message;
use quicksupport::status::{set_server_online, AppState};
use quicksupport::transfer::{
    find_job, remove_job, transfer_label, update_transfer_status, Pump, PumpAction, PumpEvent,
    PumpPhase, TransferJob,
};

type Job = TransferJob<u8, ()>;

fn job(id: i32) -> Job {
    TransferJob {
        id,
        file_num: 3,
        is_read: true,
        done: false,
        name: "file.bin".to_string(),
        total_size: 4096,
        finished_size: 1536,
        pending: None,
        handle: (),
    }
}

fn ids(jobs: &[Job]) -> Vec<i32> {
    jobs.iter().map(|j| j.id).collect()
}

fn message(n: u8) -> Message<u8> {
    Message::Transfer(n)
}

#[test]
fn removal_takes_the_first_job_and_spares_the_others() {
    let mut jobs = vec![job(1), job(2), job(3), job(2)];
    jobs[3].file_num = 9;
    assert_eq!(find_job(2, &jobs), Some(1));
    assert_eq!(find_job(7, &jobs), None);
    assert!(remove_job(7, &mut jobs).is_none());
    assert_eq!(ids(&jobs), [1, 2, 3, 2]);
    assert_eq!(remove_job(2, &mut jobs).unwrap().file_num, 3);
    assert_eq!(ids(&jobs), [1, 3, 2]);
    assert_eq!(remove_job(2, &mut jobs).unwrap().file_num, 9);
    assert_eq!(ids(&jobs), [1, 3]);
    assert_eq!(find_job(2, &jobs), None);
}

#[test]
fn a_pass_without_jobs_is_over_at_once() {
    let jobs: Vec<Job> = Vec::new();
    let (pump, action) = Pump::start(&jobs);
    assert!(matches!(action, PumpAction::Over));
    assert!(pump.phase == PumpPhase::Over);
}

#[test]
fn a_pass_drives_every_job_by_one_step() {
    let mut jobs = vec![job(10), job(20), job(30)];
    let (mut pump, first) = Pump::start(&jobs);
    assert!(matches!(first, PumpAction::Read(0)));
    let a = pump.step(&mut jobs, PumpEvent::Outbound(message(1)));
    assert!(matches!(a, PumpAction::Send(Message::Transfer(1))));
    assert!(matches!(pump.step(&mut jobs, PumpEvent::Sent), PumpAction::Read(1)));
    assert!(matches!(pump.step(&mut jobs, PumpEvent::Idle), PumpAction::Read(2)));
    let a = pump.step(&mut jobs, PumpEvent::Outbound(message(3)));
    assert!(matches!(a, PumpAction::Send(Message::Transfer(3))));
    assert!(matches!(pump.step(&mut jobs, PumpEvent::Sent), PumpAction::Over));
    assert_eq!(ids(&jobs), [10, 20, 30]);
}

#[test]
fn finished_jobs_leave_at_the_end_of_the_pass() {
    let mut jobs = vec![job(10), job(20), job(30)];
    jobs[0].done = true;
    jobs[2].done = true;
    jobs[2].pending = Some(message(9));
    let (mut pump, _) = Pump::start(&jobs);
    pump.step(&mut jobs, PumpEvent::Outbound(message(1)));
    assert!(matches!(pump.step(&mut jobs, PumpEvent::Sent), PumpAction::Read(1)));
    assert_eq!(ids(&jobs), [10, 20, 30]);
    pump.step(&mut jobs, PumpEvent::Idle);
    pump.step(&mut jobs, PumpEvent::Outbound(message(2)));
    assert!(matches!(pump.step(&mut jobs, PumpEvent::Sent), PumpAction::Over));
    assert_eq!(ids(&jobs), [20, 30]);
}

#[test]
fn failed_jobs_are_reported_and_leave() {
    let mut jobs = vec![job(10), job(20)];
    let (mut pump, _) = Pump::start(&jobs);
    match pump.step(&mut jobs, PumpEvent::Failed("disk".to_string())) {
        PumpAction::Report(Message::TransferError { id, error, file_num }) => {
            assert_eq!((id, error.as_str(), file_num), (10, "disk", 3));
        }
        _ => panic!("the failure is reported"),
    }
    assert!(matches!(pump.step(&mut jobs, PumpEvent::Reported), PumpAction::Read(1)));
    assert!(matches!(pump.step(&mut jobs, PumpEvent::Idle), PumpAction::Over));
    assert_eq!(ids(&jobs), [20]);
}

#[test]
fn a_full_channel_loses_nothing() {
    let mut jobs = vec![job(10), job(20), job(30)];
    jobs[0].done = true;
    let (mut pump, _) = Pump::start(&jobs);
    pump.step(&mut jobs, PumpEvent::Outbound(message(1)));
    pump.step(&mut jobs, PumpEvent::Sent);
    pump.step(&mut jobs, PumpEvent::Outbound(message(2)));
    let a = pump.step(&mut jobs, PumpEvent::Full(message(2)));
    assert!(matches!(a, PumpAction::Over));
    assert!(pump.phase == PumpPhase::Over);
    assert_eq!(ids(&jobs), [20, 30]);
    assert!(matches!(jobs[0].pending, Some(Message::Transfer(2))));
    assert!(jobs[1].pending.is_none());
}

#[test]
fn a_closed_channel_ends_the_pass_as_it_is() {
    let mut jobs = vec![job(10), job(20)];
    jobs[0].done = true;
    let (mut pump, _) = Pump::start(&jobs);
    pump.step(&mut jobs, PumpEvent::Outbound(message(1)));
    pump.step(&mut jobs, PumpEvent::Sent);
    pump.step(&mut jobs, PumpEvent::Outbound(message(2)));
    assert!(matches!(pump.step(&mut jobs, PumpEvent::Closed), PumpAction::Over));
    assert_eq!(ids(&jobs), [10, 20]);
}

#[test]
fn a_pass_takes_at_most_two_events_per_job() {
    let mut jobs: Vec<Job> = (0..50).map(job).collect();
    let (mut pump, mut action) = Pump::start(&jobs);
    let mut events = 0;
    loop {
        let event = match action {
            PumpAction::Read(i) if i % 3 == 0 => PumpEvent::Idle,
            PumpAction::Read(i) if i % 3 == 1 => PumpEvent::Failed("gone".to_string()),
            PumpAction::Read(_) => PumpEvent::Outbound(message(0)),
            PumpAction::Send(_) => PumpEvent::Sent,
            PumpAction::Report(_) => PumpEvent::Reported,
            PumpAction::Over => break,
        };
        action = pump.step(&mut jobs, event);
        events += 1;
    }
    assert!(events <= 100);
    assert_eq!(jobs.len(), 33);
    assert!(jobs.iter().all(|j| j.id % 3 != 1));
}

#[test]
fn a_pass_removes_exactly_the_finished_jobs() {
    let mut jobs: Vec<Job> = (1..=6).map(job).collect();
    let (mut pump, mut action) = Pump::start(&jobs);
    let mut asked = Vec::new();
    loop {
        let event = match action {
            PumpAction::Read(i) => {
                asked.push(jobs[i].id);
                jobs[i].finished_size += 1;
                match jobs[i].id {
                    1 => PumpEvent::Idle,
                    2 => PumpEvent::Failed("gone".to_string()),
                    3 => {
                        jobs[i].done = true;
                        jobs[i].pending = Some(message(8));
                        PumpEvent::Outbound(message(0))
                    }
                    4 | 6 => {
                        jobs[i].done = true;
                        PumpEvent::Outbound(message(0))
                    }
                    _ => PumpEvent::Outbound(message(0)),
                }
            }
            PumpAction::Send(_) => PumpEvent::Sent,
            PumpAction::Report(_) => PumpEvent::Reported,
            PumpAction::Over => break,
        };
        action = pump.step(&mut jobs, event);
    }
    assert_eq!(asked, [1, 2, 3, 4, 5, 6]);
    assert_eq!(ids(&jobs), [1, 3, 5]);
    assert!(jobs.iter().all(|j| j.finished_size == 1537));
}

#[test]
fn progress_lines() {
    let mut j = job(1);
    assert_eq!(transfer_label(&j), "\u{2191} file.bin  37%  1.5 KB");
    j.is_read = false;
    j.name = "\u{6587}.txt".to_string();
    j.finished_size = 0;
    assert_eq!(transfer_label(&j), "\u{2193} \u{6587}.txt  0%  0 B");
    j.total_size = 0;
    j.finished_size = 700;
    assert_eq!(transfer_label(&j), "\u{2193} \u{6587}.txt  0%  700 B");
    j.total_size = u64::MAX;
    j.finished_size = u64::MAX / 2;
    assert_eq!(transfer_label(&j), "\u{2193} \u{6587}.txt  49%  8388608.0 TB");
    j.finished_size = 700;
    j.total_size = 512;
    assert_eq!(transfer_label(&j), "\u{2193} \u{6587}.txt  100%  700 B");
}

#[test]
fn indicator_shows_the_first_active_job() {
    let mut state = AppState::new();
    set_server_online(&mut state, true);
    let mut reads = vec![job(1), job(2)];
    let mut writes = vec![job(3)];
    reads[1].name = "second".to_string();
    writes[0].name = "up".to_string();
    writes[0].is_read = false;
    update_transfer_status(&mut state, &reads, &writes);
    assert!(state.file_transfer_active);
    assert_eq!(state.file_transfer_label, "\u{2191} file.bin  37%  1.5 KB");
    reads[0].done = true;
    update_transfer_status(&mut state, &reads, &writes);
    assert_eq!(state.file_transfer_label, "\u{2191} second  37%  1.5 KB");
    reads[1].done = true;
    update_transfer_status(&mut state, &reads, &writes);
    assert_eq!(state.file_transfer_label, "\u{2193} up  37%  1.5 KB");
    writes[0].done = true;
    update_transfer_status(&mut state, &reads, &writes);
    assert!(!state.file_transfer_active);
    assert_eq!(state.file_transfer_label, "");
    assert!(state.server_online);
}
