use std::sync::Arc;
use std::sync::Mutex;
use std::time::Duration;
use std::time::Instant;

use command_supervisor::supervisor::LineOutcome;
use command_supervisor::supervisor::Mode;
use command_supervisor::supervisor::Supervisor;
use command_supervisor::units::Step;
use command_supervisor::units::count_script;
use command_supervisor::units::sleep_script;

/// Drives a unit's script: records its lines and performs its pauses.
async fn drive(script: Vec<Step>, log: Arc<Mutex<Vec<String>>>) {
    for step in script {
        match step {
            Step::Emit(m) => log.lock().unwrap().push(m),
            Step::Pause(secs) => tokio::time::sleep(Duration::from_secs(secs)).await,
        }
    }
}

fn runtime() -> tokio::runtime::Runtime {
    tokio::runtime::Builder::new_current_thread()
        .enable_time()
        .build()
        .unwrap()
}

#[test]
fn sleep_takes_at_least_its_seconds_and_reports_in_order() {
    let rt = runtime();
    let log = Arc::new(Mutex::new(Vec::new()));
    let started = Instant::now();
    rt.block_on(drive(sleep_script(1), log.clone()));
    assert!(started.elapsed() >= Duration::from_secs(1));
    let lines = log.lock().unwrap();
    assert_eq!(
        *lines,
        vec![
            "Sleeper started with 1 seconds.".to_string(),
            "Slept 1 seconds.".to_string(),
        ]
    );
}

#[test]
fn count_ticks_about_once_per_second() {
    let rt = runtime();
    let log = Arc::new(Mutex::new(Vec::new()));
    let started = Instant::now();
    rt.block_on(drive(count_script(1), log.clone()));
    assert!(started.elapsed() >= Duration::from_secs(2));
    let lines = log.lock().unwrap();
    assert_eq!(*lines, vec!["count 0".to_string(), "count 1".to_string()]);
}

#[test]
fn drain_waits_for_a_pending_sleep() {
    let rt = runtime();
    rt.block_on(async {
        let log = Arc::new(Mutex::new(Vec::new()));
        let mut supervisor = Supervisor::new();
        let mut handles = Vec::new();

        match supervisor.on_line("sleep 1") {
            LineOutcome::Dispatched(_) => {
                handles.push(tokio::spawn(drive(sleep_script(1), log.clone())));
            }
            _ => panic!("expected the sleep command to be dispatched"),
        }
        assert!(matches!(supervisor.on_line("exit"), LineOutcome::ExitRequested));

        let started = Instant::now();
        while let Some(idx) = supervisor.drain_next() {
            (&mut handles[idx]).await.unwrap();
        }
        assert_eq!(supervisor.current_mode(), Mode::Terminated);
        assert!(started.elapsed() >= Duration::from_secs(1));
        let lines = log.lock().unwrap();
        assert_eq!(lines.last().unwrap(), "Slept 1 seconds.");
    });
}

#[test]
fn later_quick_unit_finishes_before_earlier_slow_unit() {
    let rt = runtime();
    rt.block_on(async {
        let order = Arc::new(Mutex::new(Vec::new()));
        let slow_log = Arc::new(Mutex::new(Vec::new()));
        let quick_log = Arc::new(Mutex::new(Vec::new()));

        let slow = {
            let order = order.clone();
            let log = slow_log.clone();
            tokio::spawn(async move {
                drive(sleep_script(1), log).await;
                order.lock().unwrap().push("slow");
            })
        };
        let quick = {
            let order = order.clone();
            let log = quick_log.clone();
            tokio::spawn(async move {
                drive(sleep_script(0), log).await;
                order.lock().unwrap().push("quick");
            })
        };

        slow.await.unwrap();
        quick.await.unwrap();
        assert_eq!(*order.lock().unwrap(), vec!["quick", "slow"]);
    });
}
