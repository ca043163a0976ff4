use sonic_sync::clock::ClockOffset;
use sonic_sync::pid::PidController;

#[test]
fn test_offset_calculation() {
    let t0 = 1000;
    let t1 = 1100; // Latency 100ms, Server time = Client time + 0
    let t2 = 1200; // Processing 100ms
    let t3 = 1300; // Latency 100ms

    let result = ClockOffset::calculate(t0, t1, t2, t3);
    assert_eq!(result.rtt, 200);
    assert_eq!(result.offset, 0);
}

#[test]
fn test_offset_with_drift() {
    // Server is ahead by 500ms
    let offset_real = 500;
    let latency = 50;

    let t0 = 1000;
    let t1 = 1000 + offset_real + latency; // 1550
    let t2 = t1 + 10; // Processing 10ms
    let t3 = t0 + latency + 10 + latency; // 1110 (1000 + 50 + 10 + 50)

    // t0=1000, t1=1550, t2=1560, t3=1110
    let result = ClockOffset::calculate(t0, t1, t2, t3);

    // RTT = (1110 - 1000) - (1560 - 1550) = 110 - 10 = 100. Correct (50+50).
    // Offset = ((1550 - 1000) + (1560 - 1110)) / 2
    //        = (550 + 450) / 2 = 1000 / 2 = 500. Correct.

    assert_eq!(result.rtt, 100);
    assert_eq!(result.offset, 500);
}

#[test]
fn test_negative_offset() {
    // Server is behind by 300us, symmetric latency 100us.
    let result = ClockOffset::calculate(1000, 800, 900, 1300);
    assert_eq!(result.rtt, 200);
    assert_eq!(result.offset, -300);
}

#[test]
fn test_pid_convergence() {
    // Gains 0.1, 0.01, 0.05 in fixed point; drift in milliseconds times
    // one million; dt of 0.1 s is 100_000.
    let mut pid = PidController::new(100_000, 10_000, 50_000);
    let mut current_drift: i64 = 50_000_000; // 50ms drift

    for _ in 0..100 {
        let correction = pid.next(-current_drift, 100_000);
        // Simulate system response: correction reduces drift
        current_drift += correction / 2;
    }

    assert!(current_drift.abs() < 10_000_000, "PID should converge drift towards 0");
}

#[test]
fn test_pid_single_step_exact() {
    // One step at the reference audio tuning: error -1 ms over 1 s gives
    // integral -1, derivative -1 per second, output
    // (0.005 + 0.0001 + 0.001) * (-1) = -0.0061.
    let mut pid = PidController::new(5_000, 100, 1_000);
    let out = pid.next(-1_000_000, 1_000_000);
    assert_eq!(out, -6_100);
}

#[test]
fn test_pid_integral_clamped() {
    let mut pid = PidController::new(5_000, 100, 1_000);
    // A huge, long error saturates the integrator at the anti-windup
    // bound of 100: output stays finite and the next small step still
    // behaves.
    let mut last = 0;
    for _ in 0..20 {
        last = pid.next(1_000_000_000, 1_000_000_000);
    }
    // kp*e = 0.005 * 1000 = 5.0; ki*I = 0.0001 * 100 = 0.01; kd*d = 0.
    assert_eq!(last, 5_010_000);
    pid.reset();
    assert_eq!(pid.next(0, 1_000_000), 0);
}

#[test]
fn test_offset_rounds_toward_zero() {
    // An odd negative half-sum: ((999-1000)+(1000-1002))/2 = -3/2, which
    // signed 64-bit division truncates to -1.
    let result = ClockOffset::calculate(1000, 999, 1000, 1002);
    assert_eq!(result.rtt, 1);
    assert_eq!(result.offset, -1);
    // And an odd positive half-sum: ((1003-1000)+(1004-1002))/2 = 5/2 = 2.
    let result2 = ClockOffset::calculate(1000, 1003, 1004, 1002);
    assert_eq!(result2.rtt, 1);
    assert_eq!(result2.offset, 2);
}
