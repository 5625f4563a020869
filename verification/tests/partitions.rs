use ultra_low_latency_db::timeseries::partitions::{
    cleanup_statement, create_partition_statement, create_statement_for, drop_statement_for,
    partition_name, partition_name_for_day, retention_cutoff, SECONDS_PER_DAY,
};

#[test]
fn partition_is_named_after_its_day() {
    assert_eq!(partition_name(0), Some("market_data_1970_01_01".to_string()));
    assert_eq!(partition_name(86_399), Some("market_data_1970_01_01".to_string()));
    assert_eq!(partition_name(86_400), Some("market_data_1970_01_02".to_string()));
    assert_eq!(partition_name(1_431_648_000), Some("market_data_2015_05_15".to_string()));
    assert_eq!(partition_name(1_709_251_199), Some("market_data_2024_02_29".to_string()));
    assert_eq!(partition_name(-1), Some("market_data_1969_12_31".to_string()));
    assert_eq!(partition_name(i64::MAX), None);
    assert_eq!(partition_name(i64::MIN), None);
}

#[test]
fn names_and_statements_are_put_together_from_their_parts() {
    assert_eq!(partition_name_for_day("2024_01_31"), "market_data_2024_01_31");
    assert_eq!(partition_name_for_day(""), "market_data_");
    assert_eq!(
        create_statement_for("market_data_2024_01_31", "2024-01-31"),
        "CREATE TABLE IF NOT EXISTS market_data_2024_01_31 PARTITION OF market_data \
         FOR VALUES FROM ('2024-01-31 00:00:00') TO ('2024-01-31 23:59:59')"
    );
    assert_eq!(
        drop_statement_for("market_data_2024_01_31"),
        "DROP TABLE IF EXISTS market_data_2024_01_31"
    );
}

#[test]
fn partition_statement_covers_the_whole_day() {
    assert_eq!(
        create_partition_statement(1_431_648_000 + 3_600),
        Some(
            "CREATE TABLE IF NOT EXISTS market_data_2015_05_15 PARTITION OF market_data \
             FOR VALUES FROM ('2015-05-15 00:00:00') TO ('2015-05-15 23:59:59')"
                .to_string()
        )
    );
    assert_eq!(create_partition_statement(i64::MAX), None);
}

#[test]
fn cleanup_drops_the_partition_of_the_cutoff_day() {
    assert_eq!(SECONDS_PER_DAY, 86_400);
    assert_eq!(retention_cutoff(1_431_648_000, 30), 1_431_648_000 - 30 * 86_400);
    assert_eq!(retention_cutoff(0, 0), 0);
    assert_eq!(retention_cutoff(i64::MIN + 5, 1), i64::MIN);
    assert_eq!(retention_cutoff(i64::MIN + 86_400, 1), i64::MIN);
    assert_eq!(retention_cutoff(i64::MIN + 86_401, 1), i64::MIN + 1);
    assert_eq!(
        cleanup_statement(1_431_648_000, 30),
        Some("DROP TABLE IF EXISTS market_data_2015_04_15".to_string())
    );
    assert_eq!(
        cleanup_statement(1_431_648_000, 0),
        Some("DROP TABLE IF EXISTS market_data_2015_05_15".to_string())
    );
    assert_eq!(cleanup_statement(i64::MIN, 1), None);
}
