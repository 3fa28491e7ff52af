use udisk_inspector::cli::{Cli, Commands, ReportAction};
use udisk_inspector::plan::TestSelection;
use udisk_inspector::report::{decimal_string, generate_html_report, HTML_PART_0, HTML_PART_18};
use udisk_inspector::thermal::{thermal_risk, ThermalRisk};
use udisk_inspector::types::{OutputMode, TestConfig};

#[test]
fn decimal_string_matches_std() {
    for n in [0u64, 7, 10, 99, 100, 12345, 1_000_000, u64::MAX] {
        assert_eq!(decimal_string(n), n.to_string());
    }
}

fn sample_report(total: u32, real: Option<&str>) -> String {
    generate_html_report(
        "SanDisk Ultra",
        "2024-05-01 10:00:00",
        "32.0",
        real,
        Some("95.3 MB/s"),
        None,
        Some("1200"),
        Some("300"),
        Some("87%"),
        3,
        total,
        "[{\"offset_mb\":0}]",
        "[]",
    )
}

#[test]
fn html_report_holds_values_and_grade() {
    let html = sample_report(92, Some("31.9 GB"));
    assert!(html.starts_with(HTML_PART_0));
    assert!(html.ends_with(HTML_PART_18));
    assert!(html.contains("检测报告 - SanDisk Ultra</title>"));
    assert!(html.contains("<p>SanDisk Ultra | 检测日期: 2024-05-01 10:00:00</p>"));
    assert!(html.contains("<div class=\"score excellent\">92<span"));
    assert!(html.contains("grade-badge grade-excellent\">优秀</span>"));
    assert!(html.contains("<div class=\"stat-value\">32.0 GB</div>"));
    assert!(html.contains("<div class=\"stat-value\">31.9 GB</div>"));
    assert!(html.contains("<div class=\"stat-value\">95.3 MB/s</div>"));
    assert!(html.contains("<div class=\"stat-value\">N/A</div>\n      <div class=\"stat-label\">顺序写入"));
    assert!(html.contains("<div class=\"stat-value\">87%</div>"));
    assert!(html.contains("<div class=\"stat-value\">3</div>\n      <div class=\"stat-label\">坏块数量"));
    assert!(html.contains("var speedData = [{\"offset_mb\":0}];"));
    assert!(html.contains("var badData = [];"));
    assert!(html.contains("Generated by UDisk Inspector | 2024-05-01 10:00:00\n</div>"));
}

#[test]
fn html_report_grade_bands_and_missing_capacity() {
    let good = sample_report(70, None);
    assert!(good.contains("score good\">70<"));
    assert!(good.contains("grade-good\">良好<"));
    assert!(good.contains("<div class=\"stat-value\">未测试</div>"));
    let fair = sample_report(69, None);
    assert!(fair.contains("score fair\">69<"));
    assert!(fair.contains("grade-fair\">一般<"));
    let poor = sample_report(0, None);
    assert!(poor.contains("score poor\">0<"));
    assert!(poor.contains("grade-poor\">差<"));
}

#[test]
fn thermal_risk_thresholds() {
    assert_eq!(thermal_risk(false, false, 0), ThermalRisk::Low);
    assert_eq!(thermal_risk(false, false, 2), ThermalRisk::Low);
    assert_eq!(thermal_risk(false, false, 3), ThermalRisk::Medium);
    assert_eq!(thermal_risk(false, true, 0), ThermalRisk::Medium);
    assert_eq!(thermal_risk(false, false, 5), ThermalRisk::Medium);
    assert_eq!(thermal_risk(false, false, 6), ThermalRisk::High);
    assert_eq!(thermal_risk(true, true, 0), ThermalRisk::High);
}

#[test]
fn thermal_risk_never_drops_with_more_drops() {
    let rank = |r: ThermalRisk| match r {
        ThermalRisk::Low => 0,
        ThermalRisk::Medium => 1,
        ThermalRisk::High => 2,
    };
    for d in 0u32..10 {
        assert!(rank(thermal_risk(false, false, d)) <= rank(thermal_risk(false, false, d + 1)));
        assert!(rank(thermal_risk(false, false, d)) <= rank(thermal_risk(false, true, d)));
    }
}

fn test_command(all: bool, thermal: Option<u64>) -> Cli {
    Cli {
        json: true,
        db: "udisk_reports.db".to_string(),
        verbose: false,
        command: Commands::Test {
            mount: "/Volumes/USB".to_string(),
            capacity: true,
            speed: false,
            badblock: false,
            thermal,
            all,
            no_save: false,
            export_html: None,
            test_size_mb: 1024,
        },
    }
}

#[test]
fn cli_selection_follows_flags() {
    let cli = test_command(false, Some(30));
    assert_eq!(cli.output_mode(), OutputMode::Json);
    assert_eq!(
        cli.test_selection(),
        Some(TestSelection { capacity: true, speed: false, badblock: false, thermal: Some(30) })
    );
    let all = test_command(true, Some(30));
    assert_eq!(
        all.test_selection(),
        Some(TestSelection { capacity: true, speed: true, badblock: true, thermal: Some(120) })
    );
    let list = Cli {
        json: false,
        db: "x.db".to_string(),
        verbose: true,
        command: Commands::Report { action: ReportAction::Show { id: "abc".to_string() } },
    };
    assert_eq!(list.output_mode(), OutputMode::Human);
    assert_eq!(list.test_selection(), None);
}

#[test]
fn front_end_speed_test_size_defaults_to_1024() {
    let mut config = TestConfig {
        drive_path: "/dev/disk2".to_string(),
        mount_point: "/Volumes/USB".to_string(),
        test_capacity: false,
        test_speed: true,
        test_badblock: false,
        destructive: false,
        test_size_mb: None,
    };
    assert_eq!(config.speed_test_size_mb(), 1024);
    config.test_size_mb = Some(256);
    assert_eq!(config.speed_test_size_mb(), 256);
}
