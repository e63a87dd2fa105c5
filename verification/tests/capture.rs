use creatio_devhub::capture::{CaptureAction, CaptureEvent, LookupCapture};
use creatio_devhub::refdata::LookupInfo;

fn info(name: &str, table: &str) -> LookupInfo {
    LookupInfo { name: name.to_string(), table: table.to_string(), package: "Base".to_string(), has_description: false }
}

fn to_reading(c: &mut LookupCapture) {
    assert!(matches!(c.next(CaptureEvent::Ready), CaptureAction::Begin(p, false) if p == "reading lookup registry"));
    assert!(matches!(c.next(CaptureEvent::Started(true)), CaptureAction::ReadRegistry));
    match c.next(CaptureEvent::Registry(Ok(vec![info("Case priority", "CasePriority"), info("Tier", "Tier")]))) {
        CaptureAction::Log(line) => assert_eq!(line, "Found 2 lookups. Reading their values…"),
        other => panic!("unexpected {other:?}"),
    }
    assert!(matches!(c.next(CaptureEvent::Ready), CaptureAction::SetPhase(p, false) if p == "reading lookup values"));
    match c.next(CaptureEvent::PhaseSet(true)) {
        CaptureAction::StageQuery(sql) => assert!(sql.contains("UNION ALL")),
        other => panic!("unexpected {other:?}"),
    }
    assert!(matches!(c.next(CaptureEvent::QueryStaged(Ok(()))), CaptureAction::RunQuery));
    assert!(matches!(c.next(CaptureEvent::Exited(Ok(0))), CaptureAction::ReadResult));
}

#[test]
fn a_capture_saves_every_registered_lookup() {
    let mut c = LookupCapture::new("dev");
    to_reading(&mut c);
    let csv = b"__lk;Id;Name;Description\nCasePriority;a1;High;\nCasePriority;a2;Low;\nOther;x;Y;\n".to_vec();
    match c.next(CaptureEvent::ResultRead(Some(csv), 42)) {
        CaptureAction::SaveSnapshot(s) => {
            assert_eq!(s.env(), "dev");
            assert_eq!(s.captured_at(), 42);
            assert_eq!(s.lookups().len(), 2);
            assert_eq!(s.lookups()[0].1.rows.len(), 2);
            assert!(s.lookups()[1].1.rows.is_empty());
        }
        other => panic!("unexpected {other:?}"),
    }
    assert!(matches!(c.next(CaptureEvent::SnapshotWritten(Ok(()))), CaptureAction::RecordDuration));
    match c.next(CaptureEvent::Ready) {
        CaptureAction::Report(lines, 0) => assert_eq!(
            lines,
            vec!["Captured 2 lookups (2 values). This snapshot holds lookup data — delete it from the Compare screen when done."]
        ),
        other => panic!("unexpected {other:?}"),
    }
    assert!(c.is_done());
}

#[test]
fn a_capture_explains_each_way_it_can_fail() {
    let mut empty = LookupCapture::new("dev");
    empty.next(CaptureEvent::Ready);
    empty.next(CaptureEvent::Started(true));
    match empty.next(CaptureEvent::Registry(Ok(vec![]))) {
        CaptureAction::Report(lines, 1) => assert_eq!(lines, vec!["No lookups were found in this environment."]),
        other => panic!("unexpected {other:?}"),
    }

    let mut exited = LookupCapture::new("dev");
    to_reading_until_run(&mut exited);
    match exited.next(CaptureEvent::Exited(Ok(3))) {
        CaptureAction::Report(lines, 3) => assert!(lines.is_empty()),
        other => panic!("unexpected {other:?}"),
    }

    let mut no_file = LookupCapture::new("dev");
    to_reading(&mut no_file);
    match no_file.next(CaptureEvent::ResultRead(None, 1)) {
        CaptureAction::Report(lines, 1) => assert!(lines[0].starts_with("No lookup data was returned.")),
        other => panic!("unexpected {other:?}"),
    }

    let mut unwritten = LookupCapture::new("dev");
    to_reading(&mut unwritten);
    unwritten.next(CaptureEvent::ResultRead(Some(b"__lk;Id;Name\n".to_vec()), 1));
    match unwritten.next(CaptureEvent::SnapshotWritten(Err("denied".to_string()))) {
        CaptureAction::Report(lines, 1) => assert_eq!(lines, vec!["Could not write the snapshot: denied"]),
        other => panic!("unexpected {other:?}"),
    }

    let mut cancelled = LookupCapture::new("dev");
    cancelled.next(CaptureEvent::Ready);
    assert!(matches!(cancelled.next(CaptureEvent::Started(false)), CaptureAction::Stop));
    assert!(cancelled.is_done());
}

fn to_reading_until_run(c: &mut LookupCapture) {
    c.next(CaptureEvent::Ready);
    c.next(CaptureEvent::Started(true));
    c.next(CaptureEvent::Registry(Ok(vec![info("Tier", "Tier")])));
    c.next(CaptureEvent::Ready);
    c.next(CaptureEvent::PhaseSet(true));
    c.next(CaptureEvent::QueryStaged(Ok(())));
}
