use nft_aggregator::config::processor_mode::{BackfillConfig, BootStrapConfig, ProcessorMode, TestingConfig};
use nft_aggregator::steps::processor_status_saver_step::{
    get_end_version, get_processor_status_saver as step_status_saver, get_starting_version as plan_start,
    save_processor_status, BackfillProcessorStatus, BackfillStatus, ProcessorStatus, ProcessorStatusSaverEnum,
    StatusWrite, StoredBackfillStatus,
};
use nft_aggregator::utils::processor_status_saver::{
    get_processor_status_saver, ProcessorStatusSaverEnum as SaverEnum,
};
use nft_aggregator::utils::starting_version::{get_starting_version, get_starting_version_from_db};
use nft_aggregator::utils::{parse_timestamp, try_parse_timestamp, BlockTimestamp, Timestamp, MAX_TIMESTAMP_SECS};

fn backfill(ending: Option<u64>, overwrite: bool) -> ProcessorMode {
    ProcessorMode::Backfill(BackfillConfig {
        backfill_id: "b1".to_string(),
        initial_starting_version: 100,
        ending_version: ending,
        overwrite_checkpoint: overwrite,
    })
}

#[test]
fn regular_runs_save_their_progress() {
    let ts = BlockTimestamp::new(1_700_000_000, 0);
    let w = save_processor_status("nft", &ProcessorMode::Default(BootStrapConfig { initial_starting_version: 0 }), 42, ts);
    assert_eq!(
        w,
        StatusWrite::Regular(ProcessorStatus {
            processor: "nft".to_string(),
            last_success_version: 42,
            last_transaction_timestamp: ts,
        })
    );
    let t = save_processor_status(
        "nft",
        &ProcessorMode::Testing(TestingConfig { override_starting_version: 1, ending_version: None }),
        42,
        ts,
    );
    assert_eq!(t, StatusWrite::Nothing);
}

#[test]
fn backfills_complete_at_their_ending_version() {
    let w = save_processor_status("nft", &backfill(Some(200), false), 200, None);
    assert_eq!(
        w,
        StatusWrite::Backfill {
            status: BackfillProcessorStatus {
                backfill_alias: "nft_b1".to_string(),
                backfill_status: BackfillStatus::Complete,
                last_success_version: 200,
                last_transaction_timestamp: None,
                backfill_start_version: 100,
                backfill_end_version: Some(200),
            },
            only_if_newer: true,
        }
    );
    match save_processor_status("nft", &backfill(Some(200), true), 150, None) {
        StatusWrite::Backfill { status, only_if_newer } => {
            assert_eq!(status.backfill_status, BackfillStatus::InProgress);
            assert!(!only_if_newer);
        },
        other => panic!("unexpected {:?}", other),
    }
    match save_processor_status("nft", &backfill(None, false), 1_000_000, None) {
        StatusWrite::Backfill { status, .. } => assert_eq!(status.backfill_status, BackfillStatus::InProgress),
        other => panic!("unexpected {:?}", other),
    }
}

#[test]
fn end_versions_by_mode() {
    assert_eq!(get_end_version(&ProcessorMode::Default(BootStrapConfig { initial_starting_version: 5 }), Some(9)), None);
    assert_eq!(get_end_version(&backfill(Some(300), false), Some(9)), Some(300));
    assert_eq!(get_end_version(&backfill(None, false), Some(9)), Some(9));
    assert_eq!(get_end_version(&backfill(None, false), None), None);
    let testing = ProcessorMode::Testing(TestingConfig { override_starting_version: 77, ending_version: None });
    assert_eq!(get_end_version(&testing, None), Some(77));
}

#[test]
fn starting_versions_by_mode() {
    let default = ProcessorMode::Default(BootStrapConfig { initial_starting_version: 50 });
    assert_eq!(plan_start(&default, Some(80), None).starting_version, Some(80));
    assert_eq!(plan_start(&default, Some(20), None).starting_version, Some(50));
    assert_eq!(plan_start(&default, None, None).starting_version, Some(50));

    assert_eq!(plan_start(&backfill(Some(300), false), None, None).starting_version, Some(100));
    let complete = StoredBackfillStatus {
        backfill_alias: "nft_b1".to_string(),
        backfill_status: BackfillStatus::Complete,
        last_success_version: 300,
    };
    let done = plan_start(&backfill(Some(300), false), None, Some(&complete));
    assert_eq!(done.starting_version, Some(300));
    assert_eq!(done.resumed_at, None);
    let again = plan_start(&backfill(Some(300), true), None, Some(&complete));
    assert_eq!(again.starting_version, Some(100));
    let reset = again.reset_backfill.unwrap();
    assert_eq!(reset.backfill_status, BackfillStatus::InProgress);
    assert_eq!(reset.last_success_version, 0);
    assert_eq!(reset.backfill_end_version, Some(300));
    let partial = StoredBackfillStatus {
        backfill_alias: "nft_b1".to_string(),
        backfill_status: BackfillStatus::InProgress,
        last_success_version: 150,
    };
    let resumed = plan_start(&backfill(Some(300), false), None, Some(&partial));
    assert_eq!(resumed.starting_version, Some(151));
    assert_eq!(resumed.resumed_at, Some(151));

    let testing = ProcessorMode::Testing(TestingConfig { override_starting_version: 7, ending_version: Some(9) });
    assert_eq!(plan_start(&testing, Some(1000), None).starting_version, Some(7));
}

#[test]
fn backfill_checkpoints_at_minus_one_only_matter_when_resumed() {
    let odd_complete = StoredBackfillStatus {
        backfill_alias: "nft_b1".to_string(),
        backfill_status: BackfillStatus::Complete,
        last_success_version: -1,
    };
    assert_eq!(plan_start(&backfill(Some(300), false), None, Some(&odd_complete)).starting_version, Some(300));
    let odd_partial = StoredBackfillStatus {
        backfill_alias: "nft_b1".to_string(),
        backfill_status: BackfillStatus::InProgress,
        last_success_version: -1,
    };
    let reset = plan_start(&backfill(Some(300), true), None, Some(&odd_partial));
    assert_eq!(reset.starting_version, Some(100));
    assert_eq!(reset.reset_backfill.unwrap().last_success_version, 0);
}

#[test]
fn starting_versions_from_checkpoints() {
    let regular = ProcessorMode::Default(BootStrapConfig { initial_starting_version: 0 });
    assert_eq!(get_starting_version(&regular, Some(10), None, Some(3)), 10);
    assert_eq!(get_starting_version(&regular, Some(2), None, Some(3)), 3);
    assert_eq!(get_starting_version(&regular, None, None, Some(3)), 3);
    assert_eq!(get_starting_version(&regular, None, None, None), 0);
    let in_progress = StoredBackfillStatus {
        backfill_alias: "nft_b1".to_string(),
        backfill_status: BackfillStatus::InProgress,
        last_success_version: 150,
    };
    let complete = StoredBackfillStatus {
        backfill_alias: "nft_b1".to_string(),
        backfill_status: BackfillStatus::Complete,
        last_success_version: 300,
    };
    let mode = backfill(Some(300), false);
    assert_eq!(get_starting_version(&mode, Some(500), Some(&in_progress), Some(100)), 151);
    assert_eq!(get_starting_version(&mode, Some(500), Some(&complete), Some(100)), 100);
    assert_eq!(get_starting_version(&mode, Some(500), None, Some(100)), 100);
    assert_eq!(get_starting_version(&mode, Some(500), None, None), 0);
    assert_eq!(get_starting_version_from_db(None, Some(3)), None);
    assert_eq!(get_starting_version_from_db(Some(10), Some(3)), Some(10));
    assert_eq!(get_starting_version_from_db(Some(2), Some(3)), Some(3));
    assert_eq!(get_starting_version_from_db(Some(2), None), Some(2));
}

#[test]
fn status_savers() {
    match get_processor_status_saver((), "nft".to_string(), None, Some(1), Some(2)) {
        SaverEnum::Postgres { processor_name, .. } => assert_eq!(processor_name, "nft"),
        _ => panic!("expected the processor status table"),
    }
    let backfill_saver = get_processor_status_saver((), "nft".to_string(), Some("alias".to_string()), Some(1), Some(2));
    match &backfill_saver {
        SaverEnum::Backfill { backfill_alias, backfill_start_version, backfill_end_version, .. } => {
            assert_eq!(backfill_alias, "alias");
            assert_eq!(*backfill_start_version, Some(1));
            assert_eq!(*backfill_end_version, Some(2));
        },
        _ => panic!("expected a backfill"),
    }
    assert!(backfill_saver.save_processor_status_with_optional_table_names(5, None, None).is_none());
    let regular = get_processor_status_saver((), "nft".to_string(), None, None, None);
    let row = regular.save_processor_status_with_optional_table_names(5, None, None).unwrap();
    assert_eq!(row.processor, "nft");
    assert_eq!(row.last_success_version, 5);

    let ProcessorStatusSaverEnum::Postgres { processor_name, .. } = step_status_saver(());
    assert_eq!(processor_name, "nft_marketplace_processor");
    let saver = step_status_saver(());
    let status = saver.status_to_save(9, None);
    assert_eq!(status.last_success_version, 9);
    assert_eq!(status.processor, "nft_marketplace_processor");
}

#[test]
fn block_timestamps() {
    let t = BlockTimestamp::new(86_400, 5).unwrap();
    assert_eq!(t.seconds(), 86_400);
    assert_eq!(t.nanos(), 5);
    assert_eq!(t.to_string(), "1970-01-02 00:00:00.000000005");
    assert!(BlockTimestamp::new(0, 2_000_000_000).is_none());
    let far = Timestamp { seconds: MAX_TIMESTAMP_SECS + 10, nanos: 7 };
    let clamped = parse_timestamp(&far, 1);
    assert_eq!(clamped.seconds(), MAX_TIMESTAMP_SECS);
    assert_eq!(clamped.nanos(), 0);
    assert!(try_parse_timestamp(&Timestamp { seconds: 1, nanos: 2_000_000_000 }).is_none());
}
