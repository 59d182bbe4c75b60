use ffmpeg_progress::format::{human_readable, human_readable_tenths, progress_bar, secs_to_time};
use ffmpeg_progress::metrics::compute_metrics;
use ffmpeg_progress::render::{failure_line, initial_line, progress_line, summary_line};

#[test]
fn sizes_scale_by_decimal_thresholds() {
    assert_eq!(human_readable(500), "500.0KB");
    assert_eq!(human_readable(1500), "1.5MB");
    assert_eq!(human_readable(2_000_000), "2.0GB");
}

#[test]
fn size_thresholds_are_strict() {
    assert_eq!(human_readable(1000), "1000.0KB");
    assert_eq!(human_readable(1001), "1.0MB");
    assert_eq!(human_readable(1_000_000), "1000.0MB");
    assert_eq!(human_readable(1_000_001), "1.0GB");
    assert_eq!(human_readable(0), "0.0KB");
}

#[test]
fn sizes_round_to_nearest_tenth() {
    assert_eq!(human_readable(1549), "1.5MB");
    assert_eq!(human_readable(1550), "1.6MB");
    assert_eq!(human_readable(2_449_999), "2.4GB");
    assert_eq!(human_readable_tenths(15), "1.5KB");
    assert_eq!(human_readable_tenths(u128::MAX), "34028236692093846346337460743176.8GB");
}

#[test]
fn durations_in_seconds_and_minutes() {
    assert_eq!(secs_to_time(30), "30s");
    assert_eq!(secs_to_time(0), "0s");
    assert_eq!(secs_to_time(60), "60s");
    assert_eq!(secs_to_time(61), "1m 1s");
    assert_eq!(secs_to_time(90), "1m 30s");
    assert_eq!(secs_to_time(3600), "60m 0s");
}

#[test]
fn durations_in_hours_keep_the_multiplied_minutes() {
    // (3661 mod 3600) * 60 = 3660, capped at 59
    assert_eq!(secs_to_time(3661), "1h 59m");
    // 7200 mod 3600 = 0
    assert_eq!(secs_to_time(7200), "2h 0m");
    assert_eq!(secs_to_time(7199), "1h 59m");
}

#[test]
fn bar_half_full() {
    assert_eq!(progress_bar(500, 20), "[##########..........]");
}

#[test]
fn bar_edges() {
    assert_eq!(progress_bar(0, 4), "[....]");
    assert_eq!(progress_bar(1000, 4), "[####]");
    assert_eq!(progress_bar(999, 4), "[###.]");
    assert_eq!(progress_bar(2500, 4), "[####]");
    assert_eq!(progress_bar(500, 0), "[]");
}

#[test]
fn metrics_formulas() {
    let m = compute_metrics(100, 50, 500, 100, 2000, 2500, 10);
    assert_eq!(m.percent_tenths, 500);
    assert_eq!(m.estimated_tenths, 10000);
    assert_eq!(m.rate_tenths, 2000);
    assert_eq!(m.eta_secs, Some(20));
}

#[test]
fn metrics_edge_cases() {
    let m = compute_metrics(3, 1, 10, 20, 0, 0, 10);
    assert_eq!(m.percent_tenths, 333);
    assert_eq!(m.estimated_tenths, 300);
    assert_eq!(m.rate_tenths, 0);
    assert_eq!(m.eta_secs, None);
    let m = compute_metrics(10, 20, 7, 2, 0, 1000, 10);
    assert_eq!(m.percent_tenths, 2000);
    assert_eq!(m.rate_tenths, 50000);
    assert_eq!(m.eta_secs, Some(0));
}

#[test]
fn placeholder_lines() {
    assert_eq!(initial_line(5), "[.....] 0%");
    assert_eq!(initial_line(0), "0%");
}

#[test]
fn progress_line_with_and_without_stats() {
    let m = compute_metrics(100, 50, 500, 100, 2000, 2500, 10);
    assert_eq!(
        progress_line(&m, 500, 10, true),
        "[#####.....] 50.0%/500.0KB of ~1000.0KB at 200.0KB/s ETA 20s"
    );
    assert_eq!(progress_line(&m, 500, 10, false), "[#####.....] 50.0%");
    assert_eq!(progress_line(&m, 500, 0, false), " 50.0%");
    let slow = compute_metrics(100, 50, 500, 100, 2000, 0, 10);
    assert_eq!(
        progress_line(&slow, 500, 0, true),
        " 50.0%/500.0KB of ~1000.0KB at 200.0KB/s"
    );
}

#[test]
fn closing_lines() {
    assert_eq!(summary_line(500, 5000, 4, true), "[####] 100% of 500.0KB in 5s at 100.0KB/s\n");
    assert_eq!(summary_line(500, 5000, 0, false), "100%\n");
    assert_eq!(summary_line(7, 0, 0, true), "100% of 7.0KB in 0s at 7.0MB/s\n");
    assert_eq!(failure_line(), "Process failed!\n");
}

#[test]
fn derived_values_round_to_nearest() {
    // 2 of 3 seconds is 66.67 %
    let m = compute_metrics(3, 2, 100, 0, 3000, 1000, 0);
    assert_eq!(m.percent_tenths, 667);
    // 100 kB * 3 / 2 = 150 kB
    assert_eq!(m.estimated_tenths, 1500);
    // 100 kB in 3 s is 33.33 kB/s
    assert_eq!(m.rate_tenths, 333);
    assert_eq!(m.eta_secs, Some(1));
    assert_eq!(progress_line(&m, 100, 0, false), " 66.7%");
    // 2 s left at 1.5x is 1.33 s; 1 s left at 0.4x is 2.5 s, rounded up
    assert_eq!(compute_metrics(3, 1, 0, 0, 1, 1500, 0).eta_secs, Some(1));
    assert_eq!(compute_metrics(3, 2, 0, 0, 1, 400, 0).eta_secs, Some(3));
}

#[test]
fn summary_throughput_rounds_to_nearest() {
    // 500 kB in 3 s is 166.67 kB/s
    assert_eq!(summary_line(500, 3000, 0, true), "100% of 500.0KB in 3s at 166.7KB/s\n");
}

#[test]
fn bar_fill_uses_exact_fraction() {
    // one third of 300 cells, where 33.3 % of 300 would give 99
    let m = compute_metrics(3, 1, 0, 0, 1, 0, 300);
    assert_eq!(m.bar_cells, 100);
    let m = compute_metrics(3, 2, 0, 0, 1, 0, 20);
    assert_eq!(m.bar_cells, 13);
    let m = compute_metrics(10, 25, 0, 0, 1, 0, 4);
    assert_eq!(m.bar_cells, 4);
}
