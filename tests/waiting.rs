use wait::config::Config;
use wait::engine::{Action, Stage, Target, WaitEngine};

/// What a simulated run of a wait gave: times are in milliseconds of a
/// simulated clock that only sleeps and slow probes move.
struct Run {
    actions: Vec<Action>,
    elapsed: u64,
    timeouts: u32,
    timed_out_on: Option<Target>,
    probed: Vec<String>,
}

/// Runs a wait against a simulated world. `start` is the time at which the
/// wait begins; `host_up` and `path_up` say whether a target is available at
/// a time; a failed host probe costs `host_cost` for its connect timeout.
fn drive(
    config: &Config,
    start: u64,
    host_up: &dyn Fn(&str, u64) -> bool,
    host_cost: &dyn Fn(&str, u64) -> u64,
    path_up: &dyn Fn(&str, u64) -> bool,
) -> Run {
    let mut engine = WaitEngine::new(config);
    let mut now = start;
    let mut reset_at = start;
    let mut answer = false;
    let mut run = Run { actions: Vec::new(), elapsed: 0, timeouts: 0, timed_out_on: None, probed: Vec::new() };
    while !engine.is_over() {
        assert!(run.actions.len() < 1_000_000, "the wait does not end");
        let action = engine.step(answer);
        run.actions.push(action);
        answer = false;
        match action {
            Action::SleepBefore(n) | Action::Pause(n) | Action::SleepAfter(n) => now += n,
            Action::ResetTimer => reset_at = now,
            Action::ProbeHost { index, timeout } => {
                let host = engine.host(index).clone();
                answer = host_up(&host, now);
                if !answer {
                    now += host_cost(&host, timeout);
                }
                run.probed.push(host);
            }
            Action::ProbePath { index } => {
                let path = engine.path(index).clone();
                answer = path_up(&path, now);
                run.probed.push(path);
            }
            Action::CheckElapsed(n) => answer = now - reset_at >= n,
            Action::TimeOut(target) => {
                run.timeouts += 1;
                run.timed_out_on = Some(target);
            }
            Action::Proceed => {}
        }
    }
    run.elapsed = now;
    run
}

fn new_config(
    hosts: &str,
    paths: &str,
    timeout: u64,
    before: u64,
    after: u64,
    sleep: u64,
    tcp_connection_timeout: u64,
) -> Config {
    Config {
        hosts: hosts.to_string(),
        paths: paths.to_string(),
        command: None,
        global_timeout: timeout,
        tcp_connection_timeout,
        wait_before: before,
        wait_after: after,
        wait_sleep_interval: sleep,
    }
}

fn never(_: &str, _: u64) -> bool {
    false
}

fn always(_: &str, _: u64) -> bool {
    true
}

fn refused_at_once(_: &str, _: u64) -> u64 {
    0
}

/// An unroutable address: each attempt runs into its connect timeout, given
/// in seconds.
fn unroutable(_: &str, timeout: u64) -> u64 {
    timeout * 1000
}

fn count(run: &Run, wanted: fn(&Action) -> bool) -> usize {
    run.actions.iter().filter(|a| wanted(a)).count()
}

#[test]
fn should_wait_for_5_seconds_before() {
    let wait_for: u64 = 5;
    let run = drive(&new_config("", "", 1, wait_for, 0, 1, 1), 0, &never, &refused_at_once, &never);
    assert!(run.elapsed >= wait_for);
    assert_eq!(0, run.timeouts);
}

#[test]
fn should_wait_for_10_seconds_after() {
    let wait_for = 10;
    let run = drive(&new_config("", "", 1, 0, wait_for, 1, 1), 0, &never, &refused_at_once, &never);
    assert!(run.elapsed >= wait_for);
    assert_eq!(0, run.timeouts);
}

#[test]
fn integration_test_should_wait_before_and_after() {
    let wait_for = 10;
    let run = drive(
        &new_config("", "", 1, wait_for, wait_for, 1, 1),
        0,
        &never,
        &refused_at_once,
        &never,
    );
    assert!(run.elapsed >= wait_for + wait_for);
}

#[test]
fn integration_test_should_execute_without_wait() {
    let run = drive(&new_config("", "", 1, 0, 0, 1, 1), 0, &never, &refused_at_once, &never);
    assert!(run.elapsed <= 5);
    assert_eq!(vec![Action::ResetTimer, Action::Proceed], run.actions);
}

#[test]
fn should_sleep_the_specified_time_between_host_checks() {
    let run = drive(
        &new_config("198.19.255.255:1", "", 2_000, 0, 0, 10, 1),
        0,
        &never,
        &unroutable,
        &never,
    );
    assert!(run.elapsed >= 2010);
    assert!(run.elapsed < 3000);
    assert_eq!(1, run.timeouts);
}

#[test]
fn should_sleep_the_specified_time_between_path_checks() {
    let run = drive(
        &new_config("", "./target/dsfasdfreworthkjiewuryiwghfsikahfsjfskjf", 2_000, 0, 0, 11, 1),
        0,
        &never,
        &refused_at_once,
        &never,
    );
    assert!(run.elapsed >= 2000);
    assert!(run.elapsed < 3000);
    assert!(run.actions.iter().all(|a| !matches!(a, Action::Pause(n) if *n != 11)));
}

#[test]
fn should_exit_on_host_timeout() {
    let timeout = 25;
    let wait_before = 30;
    let wait_after = 300;
    let run = drive(
        &new_config("localhost:47213", "", timeout, wait_before, wait_after, 1, 1),
        0,
        &never,
        &refused_at_once,
        &never,
    );
    assert_eq!(1, run.timeouts);
    assert!(run.elapsed >= timeout + wait_before);
    assert!(run.elapsed < timeout + wait_after);
    assert_eq!(Some(Target::Host(0)), run.timed_out_on);
}

#[test]
fn should_exit_on_path_timeout() {
    let timeout = 25;
    let wait_before = 30;
    let wait_after = 300;
    let run = drive(
        &new_config("", "./target/fsafasdfasfasfasfasfw54s664", timeout, wait_before, wait_after, 1, 1),
        0,
        &never,
        &refused_at_once,
        &never,
    );
    assert_eq!(1, run.timeouts);
    assert!(run.elapsed >= timeout + wait_before);
    assert!(run.elapsed < timeout + wait_after);
    assert_eq!(Some(Target::Path(0)), run.timed_out_on);
}

#[test]
fn integration_test_should_identify_the_open_port() {
    let timeout = 500;
    let wait_before = 30;
    let wait_after = 30;
    let run = drive(
        &new_config("127.0.0.1:40001", "", timeout, wait_before, wait_after, 1, 1),
        250,
        &always,
        &refused_at_once,
        &never,
    );
    assert_eq!(0, run.timeouts);
    assert!(run.elapsed >= wait_before + wait_after);
    assert!(run.elapsed < timeout + wait_before + wait_after);
}

#[test]
fn should_wait_for_multiple_hosts() {
    let timeout = 500;
    let wait_before = 30;
    let wait_after = 30;
    let run = drive(
        &new_config("127.0.0.1:40001,127.0.0.1:40002", "", timeout, wait_before, wait_after, 1, 1),
        250,
        &always,
        &refused_at_once,
        &never,
    );
    assert_eq!(0, run.timeouts);
    assert_eq!(vec!["127.0.0.1:40001", "127.0.0.1:40002"], run.probed);
    assert!(run.elapsed >= wait_before + wait_after);
    assert!(run.elapsed < timeout + wait_before + wait_after);
}

/// The first path appears 100 ms after the start, the second 10 ms later.
fn appearing(path: &str, now: u64) -> bool {
    if path.ends_with("first") {
        now >= 100
    } else {
        now >= 110
    }
}

#[test]
fn should_wait_for_multiple_paths() {
    let timeout = 500;
    let wait_before = 30;
    let wait_after = 30;
    let run = drive(
        &new_config("", "./target/first,./target/second", timeout, wait_before, wait_after, 1, 1),
        0,
        &never,
        &refused_at_once,
        &appearing,
    );
    assert_eq!(0, run.timeouts);
    assert!(run.elapsed >= wait_before + wait_after);
    assert!(run.elapsed < timeout + wait_before + wait_after);
}

#[test]
fn should_wait_for_multiple_hosts_and_paths() {
    let timeout = 500;
    let wait_before = 30;
    let wait_after = 30;
    let run = drive(
        &new_config(
            "127.0.0.1:40001,127.0.0.1:40002",
            "./target/first,./target/second",
            timeout,
            wait_before,
            wait_after,
            1,
            1,
        ),
        250,
        &always,
        &refused_at_once,
        &|p, now| appearing(p, now - 250),
    );
    assert_eq!(0, run.timeouts);
    assert_eq!(
        vec!["127.0.0.1:40001", "127.0.0.1:40002"],
        run.probed[..2].to_vec()
    );
    assert!(run.elapsed >= wait_before + wait_after);
    assert!(run.elapsed < 250 + timeout + wait_before + wait_after);
}

#[test]
fn integration_test_should_fail_if_not_all_hosts_are_available() {
    let timeout = 100;
    let wait_before = 30;
    let wait_after = 30;
    let run = drive(
        &new_config("127.0.0.1:40001,127.0.0.1:40002", "", timeout, wait_before, wait_after, 1, 1),
        250,
        &|h, _| h.ends_with("40001"),
        &refused_at_once,
        &never,
    );
    assert_eq!(1, run.timeouts);
    assert!(run.elapsed >= wait_before + wait_after);
    assert!(run.elapsed >= timeout + wait_before + wait_after);
    assert_eq!(Some(Target::Host(1)), run.timed_out_on);
}

#[test]
fn should_fail_if_not_all_paths_are_available() {
    let timeout = 500;
    let wait_before = 30;
    let wait_after = 30;
    let run = drive(
        &new_config("", "./target/first,./target/second", timeout, wait_before, wait_after, 1, 1),
        0,
        &never,
        &refused_at_once,
        &|p, now| p.ends_with("first") && now >= 100,
    );
    assert_eq!(1, run.timeouts);
    assert!(run.elapsed >= wait_before + wait_after);
    assert!(run.elapsed < timeout + wait_before + wait_after);
    assert_eq!(Some(Target::Path(1)), run.timed_out_on);
}

#[test]
fn should_fail_if_hosts_are_available_but_paths_are_not() {
    let timeout = 100;
    let wait_before = 30;
    let wait_after = 30;
    let run = drive(
        &new_config(
            "127.0.0.1:40001",
            "./target/sfasfsfsgwe56345ybrtwet235vhffh4254",
            timeout,
            wait_before,
            wait_after,
            1,
            1,
        ),
        250,
        &always,
        &refused_at_once,
        &never,
    );
    assert_eq!(1, run.timeouts);
    assert!(run.elapsed >= wait_before + wait_after);
    assert!(run.elapsed >= timeout + wait_before + wait_after);
    assert_eq!(Some(Target::Path(0)), run.timed_out_on);
}

#[test]
fn should_fail_if_paths_are_available_but_hosts_are_not() {
    let timeout = 500;
    let wait_before = 30;
    let wait_after = 30;
    let run = drive(
        &new_config("127.0.0.1:40002", "./target", timeout, wait_before, wait_after, 1, 1),
        0,
        &never,
        &refused_at_once,
        &always,
    );
    assert_eq!(1, run.timeouts);
    assert!(run.elapsed >= wait_before + wait_after);
    assert!(run.elapsed < timeout + wait_before + wait_after);
    assert_eq!(vec!["127.0.0.1:40002"], run.probed.iter().collect::<std::collections::BTreeSet<_>>().into_iter().cloned().collect::<Vec<_>>());
}

#[test]
fn a_run_without_targets_sleeps_before_and_after_and_nothing_else() {
    let run = drive(&new_config(" , ", "\t", 7, 3, 4, 1, 1), 0, &never, &refused_at_once, &never);
    assert_eq!(
        vec![Action::SleepBefore(3), Action::ResetTimer, Action::SleepAfter(4), Action::Proceed],
        run.actions
    );
    assert_eq!(7, run.elapsed);
    assert_eq!(0, run.timeouts);
}

#[test]
fn a_run_without_targets_or_sleeps_only_resets_and_proceeds() {
    let run = drive(&new_config("", "", 7, 0, 0, 1, 1), 0, &never, &refused_at_once, &never);
    assert_eq!(vec![Action::ResetTimer, Action::Proceed], run.actions);
}

#[test]
fn a_timeout_comes_once_last_and_without_the_sleep_after() {
    let run = drive(&new_config("db:5432", "", 20, 5, 50, 3, 2), 0, &never, &refused_at_once, &never);
    let n = run.actions.len();
    assert_eq!(1, run.timeouts);
    assert_eq!(Action::TimeOut(Target::Host(0)), run.actions[n - 1]);
    assert_eq!(Action::CheckElapsed(20), run.actions[n - 2]);
    assert_eq!(Action::ProbeHost { index: 0, timeout: 2 }, run.actions[n - 3]);
    assert_eq!(0, count(&run, |a| matches!(a, Action::SleepAfter(_))));
    assert_eq!(1, count(&run, |a| matches!(a, Action::ResetTimer)));
    assert_eq!(Action::SleepBefore(5), run.actions[0]);
    assert_eq!(Action::ResetTimer, run.actions[1]);
    assert!(run.elapsed >= 5 + 20);
}

#[test]
fn targets_ready_in_time_end_with_the_sleep_after() {
    let run = drive(
        &new_config("a:1,b:2", "/p", 1000, 0, 9, 5, 1),
        0,
        &|_, now| now >= 20,
        &refused_at_once,
        &always,
    );
    let n = run.actions.len();
    assert_eq!(0, run.timeouts);
    assert_eq!(Action::SleepAfter(9), run.actions[n - 2]);
    assert_eq!(Action::Proceed, run.actions[n - 1]);
}

#[test]
fn a_reachable_first_host_saves_no_time_for_the_second() {
    let run = drive(&new_config("a:1,b:2", "", 40, 0, 0, 10, 1), 0, &|h, _| h == "a:1", &refused_at_once, &never);
    assert_eq!(Some(Target::Host(1)), run.timed_out_on);
    assert_eq!("a:1", run.probed[0]);
    assert!(run.probed[1..].iter().all(|h| h == "b:2"));
    assert!(run.elapsed >= 40);
    assert_eq!(1, count(&run, |a| matches!(a, Action::ResetTimer)));
}

#[test]
fn hosts_come_before_paths_in_list_order() {
    let run = drive(
        &new_config(" h1 , h2 ", " p1 ,, p2 ", 10, 0, 0, 1, 1),
        0,
        &always,
        &refused_at_once,
        &always,
    );
    assert_eq!(vec!["h1", "h2", "p1", "p2"], run.probed);
    assert_eq!(
        vec![
            Action::ResetTimer,
            Action::ProbeHost { index: 0, timeout: 1 },
            Action::ProbeHost { index: 1, timeout: 1 },
            Action::ProbePath { index: 0 },
            Action::ProbePath { index: 1 },
            Action::Proceed
        ],
        run.actions
    );
}

#[test]
fn a_clock_that_has_always_elapsed_gives_up_at_the_first_failure() {
    let config = new_config("h:1", "", 30, 0, 0, 1, 1);
    let mut engine = WaitEngine::new(&config);
    assert_eq!(Stage::Start, engine.stage());
    assert_eq!(Action::ResetTimer, engine.step(false));
    assert_eq!(Action::ProbeHost { index: 0, timeout: 1 }, engine.step(false));
    assert_eq!(Action::CheckElapsed(30), engine.step(false));
    assert!(!engine.is_over());
    assert_eq!(Action::TimeOut(Target::Host(0)), engine.step(true));
    assert!(engine.is_over());
    assert_eq!(Stage::GaveUp, engine.stage());
}

#[test]
fn an_engine_exposes_its_trimmed_targets() {
    let engine = WaitEngine::new(&new_config(" db:5432 ,cache:6379", " /run/ready ", 1, 0, 0, 1, 1));
    assert_eq!("db:5432", engine.host(0));
    assert_eq!("cache:6379", engine.host(1));
    assert_eq!("/run/ready", engine.path(0));
}

fn legacy_env(hosts: &str, timeout: &str, before: &str, after: &str) -> Config {
    let env = vec![
        ("WAIT_BEFORE_HOSTS".to_string(), before.to_string()),
        ("WAIT_AFTER_HOSTS".to_string(), after.to_string()),
        ("WAIT_HOSTS_TIMEOUT".to_string(), timeout.to_string()),
        ("WAIT_HOSTS".to_string(), hosts.to_string()),
    ];
    wait::config::config_from_env(&env).unwrap()
}

#[test]
fn integration_test_should_wait_5_seconds_before() {
    let wait_for = 5;
    let run = drive(&legacy_env("", "", "5", ""), 0, &never, &refused_at_once, &never);
    assert!(run.elapsed >= wait_for);
}

#[test]
fn integration_test_should_wait_10_seconds_after() {
    let wait_for = 10;
    let run = drive(&legacy_env("", "", "10o", "10"), 0, &never, &refused_at_once, &never);
    assert!(run.elapsed >= wait_for);
    assert_eq!(vec![Action::ResetTimer, Action::SleepAfter(10), Action::Proceed], run.actions);
}

#[test]
fn should_execute_without_waiting() {
    let run = drive(&legacy_env("", "", "er", ""), 0, &never, &refused_at_once, &never);
    assert!(run.elapsed <= 10);
}

#[test]
fn integration_test_should_exit_on_timeout() {
    let timeout = 25;
    let wait_before = 30;
    let wait_after = 300;
    let run = drive(
        &new_config("localhost:47213", "", timeout, wait_before, wait_after, 1, 1),
        0,
        &never,
        &refused_at_once,
        &never,
    );
    assert_eq!(1, run.timeouts);
    assert!(run.elapsed >= timeout + wait_before);
    assert!(run.elapsed < timeout + wait_after);
}

#[test]
fn should_wait_multiple_hosts() {
    let timeout = 500;
    let wait_before = 30;
    let wait_after = 30;
    let run = drive(
        &new_config("127.0.0.1:40001,127.0.0.1:40002", "", timeout, wait_before, wait_after, 1, 1),
        250,
        &always,
        &refused_at_once,
        &never,
    );
    assert_eq!(0, run.timeouts);
    assert!(run.elapsed >= wait_before + wait_after);
    assert!(run.elapsed < 250 + timeout + wait_before + wait_after);
}
