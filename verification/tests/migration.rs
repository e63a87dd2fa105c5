use creatio_devhub::migration::{total_rows, LookupMigration, MigrationAction, MigrationEvent};
use creatio_devhub::refdata::{LookupInfo, LookupRow, TablePlan};

fn s(v: &str) -> String {
    v.to_string()
}

#[test]
fn a_migration_backs_up_the_target_before_writing() {
    let mut m = LookupMigration::new("pre", false);
    assert_eq!(m.next(MigrationEvent::Ready), MigrationAction::Begin(s("reading source lookups"), true));
    assert_eq!(m.next(MigrationEvent::Started(true)), MigrationAction::Plan);
    assert_eq!(
        m.next(MigrationEvent::Planned(Ok((s("INSERT x;\n"), 3, 2)))),
        MigrationAction::SetPhase(s("backing up target"), true)
    );
    assert_eq!(m.next(MigrationEvent::PhaseSet(true)), MigrationAction::ReadRollback);
    assert_eq!(
        m.next(MigrationEvent::RollbackRead(Ok((s("DELETE y;\n"), 77)))),
        MigrationAction::WriteBackup(s("rollback-pre-77.sql"), s("DELETE y;\n"), s("applied-pre-77.sql"), s("INSERT x;\n"))
    );
    assert_eq!(
        m.next(MigrationEvent::BackupWritten(Ok(s("/m/rollback-pre-77.sql")))),
        MigrationAction::Log(s("Backup written. To undo this migration, run this file against pre:\n/m/rollback-pre-77.sql"))
    );
    assert_eq!(m.next(MigrationEvent::Ready), MigrationAction::SetPhase(s("writing to target"), false));
    assert_eq!(m.next(MigrationEvent::PhaseSet(true)), MigrationAction::Stage(s("BEGIN;\nINSERT x;\nCOMMIT;\n")));
    assert_eq!(
        m.next(MigrationEvent::ScriptStaged(Ok(()))),
        MigrationAction::Log(s("Applying 3 row(s) across 2 lookup(s) to pre…"))
    );
    assert_eq!(m.next(MigrationEvent::Ready), MigrationAction::Apply);
    assert_eq!(
        m.next(MigrationEvent::Applied(Ok((0, s("[INF] done\n"))))),
        MigrationAction::Report(vec![s("[INF] done"), s("✓ Migrated 3 row(s) across 2 lookup(s) to pre.")], 0)
    );
    assert!(m.is_done());
}

#[test]
fn a_skipped_backup_goes_straight_to_the_write() {
    let mut m = LookupMigration::new("pre", true);
    m.next(MigrationEvent::Ready);
    m.next(MigrationEvent::Started(true));
    assert_eq!(
        m.next(MigrationEvent::Planned(Ok((s("INSERT x;\n"), 1, 1)))),
        MigrationAction::SetPhase(s("writing to target"), false)
    );
    assert_eq!(m.next(MigrationEvent::PhaseSet(true)), MigrationAction::Stage(s("BEGIN;\nINSERT x;\nCOMMIT;\n")));
}

#[test]
fn a_migration_stops_on_each_failure() {
    let mut empty = LookupMigration::new("pre", false);
    empty.next(MigrationEvent::Ready);
    empty.next(MigrationEvent::Started(true));
    assert_eq!(
        empty.next(MigrationEvent::Planned(Ok((String::new(), 0, 1)))),
        MigrationAction::Report(vec![s("The selected lookups have no rows to migrate.")], 0)
    );

    let mut cancelled = LookupMigration::new("pre", false);
    cancelled.next(MigrationEvent::Ready);
    assert_eq!(cancelled.next(MigrationEvent::Started(false)), MigrationAction::Stop);
    assert!(cancelled.is_done());

    let mut unreadable = LookupMigration::new("pre", false);
    unreadable.next(MigrationEvent::Ready);
    unreadable.next(MigrationEvent::Started(true));
    unreadable.next(MigrationEvent::Planned(Ok((s("I;\n"), 1, 1))));
    unreadable.next(MigrationEvent::PhaseSet(true));
    assert_eq!(
        unreadable.next(MigrationEvent::RollbackRead(Err(s("boom")))),
        MigrationAction::Report(vec![s("Could not read the target for backup: boom")], 1)
    );

    let mut unwritten = LookupMigration::new("pre", false);
    unwritten.next(MigrationEvent::Ready);
    unwritten.next(MigrationEvent::Started(true));
    unwritten.next(MigrationEvent::Planned(Ok((s("I;\n"), 1, 1))));
    unwritten.next(MigrationEvent::PhaseSet(true));
    unwritten.next(MigrationEvent::RollbackRead(Ok((s("R;\n"), 5))));
    assert_eq!(
        unwritten.next(MigrationEvent::BackupWritten(Err(s("disk full")))),
        MigrationAction::Report(vec![s("Could not write the rollback: disk full")], 1)
    );

    let mut failed = LookupMigration::new("pre", true);
    failed.next(MigrationEvent::Ready);
    failed.next(MigrationEvent::Started(true));
    failed.next(MigrationEvent::Planned(Ok((s("I;\n"), 1, 1))));
    failed.next(MigrationEvent::PhaseSet(true));
    failed.next(MigrationEvent::ScriptStaged(Ok(())));
    failed.next(MigrationEvent::Ready);
    match failed.next(MigrationEvent::Applied(Ok((0, s("[ERR] - relation does not exist"))))) {
        MigrationAction::Report(lines, code) => {
            assert_eq!(code, 1);
            assert!(lines.iter().any(|l| l.starts_with("Migration failed: ")));
        }
        other => panic!("unexpected {other:?}"),
    }
}

#[test]
fn planned_rows_are_counted_over_every_table() {
    let info = LookupInfo { name: s("A"), table: s("A"), package: s("P"), has_description: false };
    let row = |id: &str| LookupRow { id: s(id), name: s("n"), description: None };
    let plans = vec![
        TablePlan { info: info.clone(), source_rows: vec![row("1"), row("2")] },
        TablePlan { info, source_rows: vec![row("3")] },
    ];
    assert_eq!(total_rows(&plans), 3);
    assert_eq!(total_rows(&[]), 0);
}
