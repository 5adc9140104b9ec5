use werewolf::error::AppError;
use werewolf::logging::LogLevel;
use werewolf::performance::{
    compute_stats, BatchOperator, PaginatedResult, PaginationParams, PoolSettings, QueryCache,
    DEFAULT_PAGE_SIZE, MAX_PAGE_SIZE,
};
use werewolf::photo::{assess_photo_quality, PhotoQualityLevel};
use werewolf::settings::{
    default_plate_colors, AppSettings, DatabaseSettings, SettingsManager, UiSettings,
};
use werewolf::system_health::{ConfigHealth, DatabaseHealth, SystemHealth};
use werewolf::text::{clone_text, decimal, owned, starts_with, str_eq};

#[test]
fn test_pagination_params() {
    let params = PaginationParams::new(2, 25);
    assert_eq!(params.page, 2);
    assert_eq!(params.page_size, 25);
    assert_eq!(params.offset(), 25);
    assert_eq!(params.limit(), 25);
}

#[test]
fn test_paginated_result() {
    let items = vec!["a", "b", "c"];
    let result = PaginatedResult::new(items, 1, 10, 23);

    assert_eq!(result.total_pages, 3);
    assert!(!result.has_previous);
    assert!(result.has_next);
}

#[test]
fn pagination_params_are_brought_into_range() {
    assert_eq!(PaginationParams::new(0, 0), PaginationParams { page: 1, page_size: 1 });
    assert_eq!(PaginationParams::new(-5, -5), PaginationParams { page: 1, page_size: 1 });
    assert_eq!(
        PaginationParams::new(7, 10_000),
        PaginationParams { page: 7, page_size: MAX_PAGE_SIZE }
    );
    assert_eq!(PaginationParams::new(1, 500).page_size, 500);
    assert_eq!(PaginationParams::new(1, 501).page_size, 500);
    assert_eq!(PaginationParams::new(1, 10).offset(), 0);
    assert_eq!(PaginationParams::new(4, 50).offset(), 150);
    let d = PaginationParams::default();
    assert_eq!((d.page, d.page_size), (1, DEFAULT_PAGE_SIZE));
}

#[test]
fn paginated_result_counts_pages_rounding_up() {
    let none: Vec<u8> = Vec::new();
    let r = PaginatedResult::new(none, 1, 10, 0);
    assert_eq!(r.total_pages, 0);
    assert!(!r.has_next);
    let r = PaginatedResult::new(vec![1, 2], 2, 10, 20);
    assert_eq!(r.total_pages, 2);
    assert!(!r.has_next);
    assert!(r.has_previous);
    let r = PaginatedResult::new(vec![1], 2, 10, 21);
    assert_eq!(r.total_pages, 3);
    assert!(r.has_next);
    assert_eq!(r.items, vec![1]);
    assert_eq!((r.page, r.page_size, r.total_items), (2, 10, 21));
}

#[test]
fn pool_settings_presets() {
    let large = PoolSettings::for_large_competition();
    assert_eq!(
        (large.max_connections, large.min_connections, large.acquire_timeout, large.idle_timeout),
        (25, 5, 5, 600)
    );
    let small = PoolSettings::for_small_competition();
    assert_eq!(
        (small.max_connections, small.min_connections, small.acquire_timeout, small.idle_timeout),
        (5, 1, 15, 180)
    );
    let d = PoolSettings::default();
    assert_eq!((d.max_connections, d.min_connections, d.acquire_timeout, d.idle_timeout), (10, 2, 10, 300));
}

#[test]
fn batch_size_is_clamped() {
    assert_eq!(BatchOperator::new(0).batch_size(), 1);
    assert_eq!(BatchOperator::new(1).batch_size(), 1);
    assert_eq!(BatchOperator::new(250).batch_size(), 250);
    assert_eq!(BatchOperator::new(1000).batch_size(), 1000);
    assert_eq!(BatchOperator::new(1001).batch_size(), 1000);
    assert_eq!(BatchOperator::new(usize::MAX).batch_size(), 1000);
}

#[test]
fn photo_quality_levels() {
    assert_eq!(assess_photo_quality(800, 1000).level, PhotoQualityLevel::Excellent);
    assert_eq!(assess_photo_quality(799, 1000).level, PhotoQualityLevel::Good);
    assert_eq!(assess_photo_quality(800, 999).level, PhotoQualityLevel::Good);
    assert_eq!(assess_photo_quality(400, 500).level, PhotoQualityLevel::Good);
    assert_eq!(assess_photo_quality(399, 500).level, PhotoQualityLevel::Fair);
    assert_eq!(assess_photo_quality(200, 250).level, PhotoQualityLevel::Fair);
    assert_eq!(assess_photo_quality(200, 249).level, PhotoQualityLevel::Poor);
    assert_eq!(assess_photo_quality(5000, 100).level, PhotoQualityLevel::Poor);
    let q = assess_photo_quality(640, 800);
    assert_eq!(q.message, "Good quality - suitable for competition use");
    assert_eq!((q.original_width, q.original_height), (640, 800));
    assert_eq!(
        assess_photo_quality(1, 1).message,
        "Poor quality - image is very small and may appear pixelated"
    );
    assert_eq!(
        assess_photo_quality(900, 1200).message,
        "Excellent quality - perfect for professional use"
    );
    assert_eq!(
        assess_photo_quality(300, 300).message,
        "Fair quality - acceptable but could be better"
    );
}

#[test]
fn log_levels_are_read_without_regard_to_case() {
    assert_eq!(LogLevel::from_str("debug"), LogLevel::Debug);
    assert_eq!(LogLevel::from_str("INFO"), LogLevel::Info);
    assert_eq!(LogLevel::from_str("Warn"), LogLevel::Warn);
    assert_eq!(LogLevel::from_str("ERROR"), LogLevel::Error);
    assert_eq!(LogLevel::from_str("trace"), LogLevel::Info);
    assert_eq!(LogLevel::from_str(""), LogLevel::Info);
    assert_eq!(LogLevel::from_lowercase("ERROR"), LogLevel::Info);
}

#[test]
fn log_filter_lets_through_what_is_severe_enough() {
    let levels = [LogLevel::Debug, LogLevel::Info, LogLevel::Warn, LogLevel::Error];
    for (i, a) in levels.iter().enumerate() {
        for (j, b) in levels.iter().enumerate() {
            assert_eq!(a.passes(b), i >= j);
        }
    }
}

#[test]
fn default_settings() {
    let s = AppSettings::default();
    assert_eq!(s.ui.language, "pl");
    assert_eq!(s.ui.theme, "dark");
    assert!(!s.ui.window_maximized);
    assert_eq!(s.ui.window_width, Some(1200));
    assert_eq!(s.ui.window_height, Some(800));
    assert_eq!(s.competition.default_federation, "PZKFiTS");
    assert_eq!(s.competition.default_discipline, "Powerlifting");
    assert_eq!(s.competition.auto_save_interval_minutes, 5);
    assert!(s.competition.backup_enabled);
    assert_eq!(s.competition.max_backup_files, 10);
    assert_eq!(
        s.database,
        DatabaseSettings { connection_timeout_seconds: 30, max_connections: 20, enable_wal_mode: true }
    );
    let colors = default_plate_colors();
    assert_eq!(colors.len(), 11);
    assert_eq!(colors[0], (25_000, "#DC2626".to_string()));
    assert_eq!(colors[5], (2_500, "#DC2626".to_string()));
    assert_eq!(colors[8], (1_250, "#16A34A".to_string()));
    assert_eq!(colors[10], (500, "#6B7280".to_string()));
    assert_eq!(s.competition.default_plate_colors, colors);
}

#[test]
fn settings_manager_updates_one_part_at_a_time() {
    let mut m = SettingsManager::with_state(
        "/tmp/settings.toml".to_string(),
        AppSettings::default(),
        ConfigHealth::Healthy,
    );
    assert_eq!(m.get_language(), "pl");
    assert_eq!(m.get_config_file_path(), "/tmp/settings.toml");
    assert!(matches!(m.get_config_health(), ConfigHealth::Healthy));

    m.set_language("en".to_string());
    assert_eq!(m.get_language(), "en");
    assert_eq!(m.get_settings().ui.theme, "dark");

    m.update_ui_settings(UiSettings {
        language: "de".to_string(),
        theme: "light".to_string(),
        window_maximized: true,
        window_width: None,
        window_height: None,
    });
    assert_eq!(m.get_language(), "de");
    assert_eq!(m.get_settings().ui.theme, "light");
    assert_eq!(m.get_settings().database.max_connections, 20);

    m.update_database_settings(DatabaseSettings {
        connection_timeout_seconds: 1,
        max_connections: 2,
        enable_wal_mode: false,
    });
    assert_eq!(m.get_settings().database.max_connections, 2);
    assert_eq!(m.get_language(), "de");

    let mut competition = AppSettings::default().competition;
    competition.default_federation = "IPF".to_string();
    m.update_competition_settings(competition);
    assert_eq!(m.get_settings().competition.default_federation, "IPF");
    assert_eq!(m.get_settings().database.max_connections, 2);

    let mut all = AppSettings::default();
    all.ui.language = "fr".to_string();
    m.update_settings(all);
    assert_eq!(m.get_language(), "fr");
    assert_eq!(m.get_settings().competition.default_federation, "PZKFiTS");

    m.reset_to_defaults();
    assert_eq!(m.get_language(), "pl");
    assert_eq!(m.get_config_file_path(), "/tmp/settings.toml");
}

#[test]
fn system_health_holds_both_findings() {
    let h = SystemHealth::new(ConfigHealth::Healthy, DatabaseHealth::Healthy);
    assert!(matches!(h.config_health, ConfigHealth::Healthy));
    assert!(matches!(h.database_health, DatabaseHealth::Healthy));
    let h = SystemHealth::new(
        ConfigHealth::Error { backup_path: None, message: "broken".to_string() },
        DatabaseHealth::Healthy,
    );
    match h.config_health {
        ConfigHealth::Error { backup_path, message } => {
            assert_eq!(backup_path, None);
            assert_eq!(message, "broken");
        }
        ConfigHealth::Healthy => panic!("the fault was lost"),
    }
    let h = SystemHealth::new(
        ConfigHealth::Healthy,
        DatabaseHealth::Error {
            backup_path: Some("/tmp/b.db".to_string()),
            message: "corrupt".to_string(),
            using_fallback: true,
        },
    );
    match h.database_health {
        DatabaseHealth::Error { backup_path, message, using_fallback } => {
            assert_eq!(backup_path.as_deref(), Some("/tmp/b.db"));
            assert_eq!(message, "corrupt");
            assert!(using_fallback);
        }
        DatabaseHealth::Healthy => panic!("the fault was lost"),
    }
}

#[test]
fn error_texts() {
    assert_eq!(AppError::DatabaseNotInitialized.to_string(), "Database not initialized");
    assert_eq!(AppError::ContestNotInProgress.to_string(), "Contest is not in progress");
    assert_eq!(
        AppError::CompetitorNotFound { id: "7".to_string() }.to_string(),
        "Competitor not found: 7"
    );
    assert_eq!(AppError::ContestNotFound { id: "7".to_string() }.to_string(), "Contest not found: 7");
    assert_eq!(
        AppError::ContestStateNotFound { contest_id: "7".to_string() }.to_string(),
        "Contest state not found for contest: 7"
    );
    assert_eq!(
        AppError::RegistrationNotFound { id: "7".to_string() }.to_string(),
        "Registration not found: 7"
    );
    assert_eq!(AppError::AttemptNotFound { id: "7".to_string() }.to_string(), "Attempt not found: 7");
    assert_eq!(
        AppError::InvalidAttempt { reason: "late".to_string() }.to_string(),
        "Invalid attempt: late"
    );
    assert_eq!(
        AppError::ContestAlreadyExists { name: "Open".to_string() }.to_string(),
        "Contest already exists: Open"
    );
    assert_eq!(
        AppError::InvalidInput { field: "a".to_string(), reason: "b".to_string() }.to_string(),
        "Invalid input: a - b"
    );
    assert_eq!(AppError::ValidationError("x".to_string()).to_string(), "Validation error: x");
    assert_eq!(AppError::Internal("x".to_string()).to_string(), "Internal error: x");
}

#[test]
fn text_helpers() {
    assert!(str_eq("abc", "abc"));
    assert!(!str_eq("abc", "abd"));
    assert!(!str_eq("abc", "ab"));
    assert!(str_eq("", ""));
    assert_eq!(owned("zażółć"), "zażółć");
    assert_eq!(clone_text(&Some("x".to_string())), Some("x".to_string()));
    assert_eq!(clone_text(&None), None);
}

#[test]
fn plate_colour_suggestions() {
    let m = SettingsManager::with_state(
        "settings.toml".to_string(),
        AppSettings::default(),
        ConfigHealth::Healthy,
    );
    assert_eq!(m.suggest_plate_color(25_000), "#DC2626");
    assert_eq!(m.suggest_plate_color(20_000), "#2563EB");
    assert_eq!(m.suggest_plate_color(500), "#6B7280");
    // closest weight: 50 kg is nearest to 25 kg, 250 g to 500 g
    assert_eq!(m.suggest_plate_color(50_000), "#DC2626");
    assert_eq!(m.suggest_plate_color(250), "#6B7280");
    assert_eq!(m.suggest_plate_color(0), "#6B7280");
    // 12.5 kg is as far from 15 kg as from 10 kg: the earlier entry wins
    assert_eq!(m.suggest_plate_color(12_500), "#EAB308");
    assert_eq!(m.suggest_plate_color(12_499), "#16A34A");
    assert_eq!(m.suggest_plate_color(u32::MAX), "#DC2626");

    let mut empty = AppSettings::default();
    empty.competition.default_plate_colors.clear();
    let m = SettingsManager::with_state("s".to_string(), empty, ConfigHealth::Healthy);
    assert_eq!(m.suggest_plate_color(25_000), "#374151");
}

#[test]
fn timing_figures() {
    assert!(compute_stats("op", &Vec::new()).is_none());
    let s = compute_stats("op", &vec![30, 10, 20]).unwrap();
    assert_eq!(s.operation_name, "op");
    assert_eq!((s.count, s.average, s.min, s.max, s.median), (3, 20, 10, 30, 20));
    let s = compute_stats("op", &vec![4, 1, 3, 9]).unwrap();
    assert_eq!((s.count, s.average, s.min, s.max, s.median), (4, 4, 1, 9, 3));
    let s = compute_stats("op", &vec![7]).unwrap();
    assert_eq!((s.count, s.average, s.min, s.max, s.median), (1, 7, 7, 7, 7));
    let s = compute_stats("op", &vec![u64::MAX, u64::MAX]).unwrap();
    assert_eq!((s.average, s.min, s.max, s.median), (u64::MAX, u64::MAX, u64::MAX, u64::MAX));
}

#[test]
fn decimal_notation() {
    for n in [0i128, 1, 9, 10, 11, 99, 100, 101, 1_000_000, -1, -10, -999, i64::MAX as i128] {
        assert_eq!(decimal(n), n.to_string());
    }
    assert_eq!(decimal(i128::MAX), i128::MAX.to_string());
    assert_eq!(decimal(i128::MIN), i128::MIN.to_string());
    assert_eq!(decimal(-0), "0");
    assert_eq!(decimal(1_234_567_890), "1234567890");
}

#[test]
fn test_query_cache() {
    let mut cache = QueryCache::<String>::new(1); // 1 second TTL

    // Test set and get
    cache.set("key1".to_string(), "value1".to_string(), 1_000);
    assert_eq!(cache.get("key1", 1_000), Some(&"value1".to_string()));

    // Test expiration
    assert_eq!(cache.get("key1", 1_001), None);
    assert_eq!(cache.get("key1", 1_002), None);
}

#[test]
fn cache_replaces_invalidates_and_cleans_up() {
    let mut cache = QueryCache::<u32>::new(10);
    cache.set("results:c1".to_string(), 1, 100);
    cache.set("results:c2".to_string(), 2, 105);
    cache.set("queue:c1".to_string(), 3, 105);
    assert_eq!(cache.len(), 3);
    assert_eq!(cache.get("results:c1", 109), Some(&1));
    assert_eq!(cache.get("results:c1", 110), None);
    assert_eq!(cache.get("missing", 0), None);

    cache.set("results:c1".to_string(), 11, 108);
    assert_eq!(cache.len(), 3);
    assert_eq!(cache.get("results:c1", 117), Some(&11));

    cache.invalidate("queue:c1");
    assert_eq!(cache.get("queue:c1", 105), None);
    assert_eq!(cache.len(), 2);
    cache.invalidate("queue:c1");
    assert_eq!(cache.len(), 2);

    cache.cleanup_expired(115);
    assert_eq!(cache.len(), 1);
    assert_eq!(cache.get("results:c2", 105), None);
    assert_eq!(cache.get("results:c1", 115), Some(&11));

    cache.set("queue:c1".to_string(), 4, 116);
    cache.invalidate_prefix("results:");
    assert_eq!(cache.len(), 1);
    assert_eq!(cache.get("queue:c1", 116), Some(&4));
    cache.invalidate_prefix("");
    assert_eq!(cache.len(), 0);
}

#[test]
fn prefixes() {
    assert!(starts_with("results:c1", "results:"));
    assert!(starts_with("results:c1", ""));
    assert!(starts_with("", ""));
    assert!(starts_with("żółw", "żó"));
    assert!(!starts_with("results", "results:"));
    assert!(!starts_with("queue:c1", "results:"));
    assert!(!starts_with("", "a"));
}
