use markov_bot::backoff::{exponential_retry, random_durations, Backoff, Step, MAX_ATTEMPTS};
use std::cell::RefCell;

const CAPS: [u64; 5] = [200_000_000, 400_000_000, 800_000_000, 1_600_000_000, 3_200_000_000];

#[test]
fn the_schedule_doubles_under_its_caps() {
    assert_eq!(MAX_ATTEMPTS, 5);
    let mut largest = 0;
    for _ in 0..200 {
        let delays = random_durations();
        assert_eq!(delays.len(), 5);
        for (delay, cap) in delays.iter().zip(CAPS.iter()) {
            assert!(delay <= cap, "{} > {}", delay, cap);
            assert_eq!(delay % 100, 0);
        }
        largest = largest.max(delays[4]);
    }
    assert!(largest > 1_600_000_000);
}

#[test]
fn jitter_varies_the_waits() {
    let first = random_durations();
    let mut differs = false;
    for _ in 0..50 {
        differs = differs || random_durations() != first;
    }
    assert!(differs);
    assert!(first.iter().any(|delay| *delay > 3_200));
}

#[test]
fn a_run_gives_up_at_the_fifth_failure() {
    let mut run = Backoff::with_delays(vec![10, 20, 30, 40, 50]);
    assert_eq!(run.tries(), 0);
    assert_eq!(run.failed(), Step::Wait(10));
    assert_eq!(run.failed(), Step::Wait(20));
    assert_eq!(run.failed(), Step::Wait(30));
    assert_eq!(run.failed(), Step::Wait(40));
    assert_eq!(run.tries(), 4);
    assert_eq!(run.failed(), Step::GiveUp);
    assert_eq!(run.tries(), 5);
    assert_eq!(run.failed(), Step::GiveUp);
    assert_eq!(run.tries(), 5);
}

#[test]
fn a_run_without_waits_left_gives_up_early() {
    let mut run = Backoff::with_delays(vec![7]);
    assert_eq!(run.failed(), Step::Wait(7));
    assert_eq!(run.failed(), Step::GiveUp);
    assert_eq!(run.failed(), Step::GiveUp);
    let mut none = Backoff::with_delays(Vec::new());
    assert_eq!(none.failed(), Step::GiveUp);
}

#[test]
fn a_drawn_run_waits_under_the_caps() {
    let mut run = Backoff::new();
    for cap in CAPS.iter().take(4) {
        match run.failed() {
            Step::Wait(nanos) => assert!(nanos <= *cap),
            Step::GiveUp => panic!("gave up early"),
        }
    }
    assert_eq!(run.failed(), Step::GiveUp);
}

#[test]
fn retry_returns_the_first_success() {
    let calls = RefCell::new(0u32);
    let waits = RefCell::new(Vec::<u64>::new());
    let res: Result<u32, _> = exponential_retry(
        || {
            *calls.borrow_mut() += 1;
            if *calls.borrow() < 3 {
                Err(format!("failure {}", calls.borrow()))
            } else {
                Ok(*calls.borrow() * 10)
            }
        },
        |nanos| waits.borrow_mut().push(nanos),
    );
    assert_eq!(res.ok(), Some(30));
    assert_eq!(*calls.borrow(), 3);
    assert_eq!(waits.borrow().len(), 2);
    assert!(waits.borrow()[0] <= CAPS[0]);
    assert!(waits.borrow()[1] <= CAPS[1]);
}

#[test]
fn retry_succeeds_at_once_without_waiting() {
    let waits = RefCell::new(0u32);
    let res: Result<&str, markov_bot::backoff::RetryError<()>> =
        exponential_retry(|| Ok("done"), |_| *waits.borrow_mut() += 1);
    assert_eq!(res.ok(), Some("done"));
    assert_eq!(*waits.borrow(), 0);
}

#[test]
fn retry_gives_up_after_five_attempts_with_the_last_error() {
    let calls = RefCell::new(0u32);
    let waits = RefCell::new(Vec::<u64>::new());
    let res: Result<(), _> = exponential_retry(
        || {
            *calls.borrow_mut() += 1;
            Err(format!("failure {}", calls.borrow()))
        },
        |nanos| waits.borrow_mut().push(nanos),
    );
    let error = res.err().unwrap();
    assert_eq!(error.error, "failure 5");
    assert_eq!(error.tries, 5);
    assert_eq!(*calls.borrow(), 5);
    assert_eq!(waits.borrow().len(), 4);
    for (wait, cap) in waits.borrow().iter().zip(CAPS.iter()) {
        assert!(wait <= cap);
    }
}
