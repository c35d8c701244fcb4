use supertools::app_state::{job_id_from_millis, AppState, JobControl};
use supertools::commands::{dropped_path_error, resolve_dropped_input, DroppedKind, DroppedPath};
use supertools::compress::InputSource;

#[test]
fn job_control_cancellation() {
    let mut job = JobControl::new("job-1".into());
    assert!(!job.is_cancelled());
    job.cancel();
    assert!(job.is_cancelled());
    assert_eq!(job.id, "job-1");
}

#[test]
fn one_job_at_a_time() {
    let mut state = AppState::new();
    assert!(state.current_job().is_none());
    assert_eq!(state.start_job(JobControl::new("job-1".into())), Ok(()));
    assert_eq!(
        state.start_job(JobControl::new("job-2".into())),
        Err("当前已有任务在运行，请先等待完成或取消。".to_string())
    );
    assert_eq!(state.current_job().unwrap().id, "job-1");
    state.clear_current_job("job-2");
    assert_eq!(state.current_job().unwrap().id, "job-1");
    state.clear_current_job("job-1");
    assert!(state.current_job().is_none());
    state.set_current_job(JobControl::new("job-3".into()));
    assert_eq!(state.current_job().unwrap().id, "job-3");
}

#[test]
fn cancel_reaches_only_the_named_job() {
    let mut state = AppState::new();
    assert!(!state.cancel_compress_job("job-1"));
    state.set_current_job(JobControl::new("job-1".into()));
    assert!(!state.cancel_compress_job("job-2"));
    assert!(!state.is_job_cancelled("job-1"));
    assert!(state.cancel_compress_job("job-1"));
    assert!(state.is_job_cancelled("job-1"));
    assert!(!state.is_job_cancelled("job-2"));
}

#[test]
fn job_ids() {
    assert_eq!(job_id_from_millis(1700000000123), "job-1700000000123");
    assert_eq!(job_id_from_millis(0), "job-0");
}

fn dropped(path: &str, kind: DroppedKind) -> DroppedPath {
    DroppedPath { path: path.into(), kind }
}

#[test]
fn dropped_inputs() {
    assert_eq!(resolve_dropped_input(vec![]).err().unwrap(), "未检测到拖拽路径");
    match resolve_dropped_input(vec![dropped("/d", DroppedKind::Directory)]).unwrap() {
        InputSource::Folder { path } => assert_eq!(path, "/d"),
        _ => panic!("expected a folder"),
    }
    match resolve_dropped_input(vec![
        dropped("/d", DroppedKind::Directory),
        dropped("/a.png", DroppedKind::File),
        dropped("/x", DroppedKind::Other),
        dropped("/b.png", DroppedKind::File),
    ])
    .unwrap()
    {
        InputSource::Files { paths } => assert_eq!(paths, vec!["/a.png".to_string(), "/b.png".to_string()]),
        _ => panic!("expected files"),
    }
    assert_eq!(
        resolve_dropped_input(vec![dropped("/d", DroppedKind::Directory), dropped("/e", DroppedKind::Directory)]).err().unwrap(),
        "未检测到可处理的文件或文件夹"
    );
    assert_eq!(dropped_path_error("/x", "gone"), "读取拖拽路径失败: /x (gone)");
}
