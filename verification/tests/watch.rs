use htmplate::watch::{EventCategory, FsEvent, WatchAction};
use htmplate::{classify_file, interpret_bundler, interpret_formatter, template_target,
    BundleScriptError, FileKind, FileStatus, StatusMap, TemplateError, ToolOutcome};
use htmplate::watch::plan_batch;

#[test]
fn classification_matches_the_two_patterns() {
    assert!(matches!(classify_file(b"/site/index.template.html"), Some(FileKind::Html)));
    assert!(matches!(classify_file(b"index.template.html"), Some(FileKind::Html)));
    assert!(matches!(classify_file(b"/site/js/index.ts"), Some(FileKind::Script)));
    assert!(classify_file(b"/site/other.html").is_none());
    assert!(classify_file(b"/site/notindex.ts").is_none());
    assert!(classify_file(b"/site/xindex.template.html").is_none());
}

#[test]
fn template_target_is_the_sibling_output() {
    assert_eq!(
        template_target(b"/site/index.template.html"),
        b"/site/index.html".to_vec()
    );
    assert_eq!(template_target(b"index.template.html"), b"index.html".to_vec());
}

#[test]
fn a_burst_of_events_for_one_path_plans_one_transform() {
    let events: Vec<FsEvent> = (0..5)
        .map(|_| FsEvent {
            category: EventCategory::CreateOrModify,
            path: b"/site/index.template.html".to_vec(),
        })
        .collect();
    let plan = plan_batch(&events);
    assert_eq!(plan.len(), 1);
    match &plan[0] {
        WatchAction::RunTransform { path, kind } => {
            assert_eq!(path, &b"/site/index.template.html".to_vec());
            assert!(matches!(kind, FileKind::Html));
        }
        other => panic!("expected one transform, got {other:?}"),
    }
}

#[test]
fn unrelated_paths_each_get_their_own_action() {
    let events = vec![
        FsEvent { category: EventCategory::CreateOrModify, path: b"/a/index.ts".to_vec() },
        FsEvent { category: EventCategory::CreateOrModify, path: b"/a/index.ts".to_vec() },
        FsEvent { category: EventCategory::Remove, path: b"/b/index.template.html".to_vec() },
        FsEvent { category: EventCategory::CreateOrModify, path: b"/c/readme.md".to_vec() },
        FsEvent { category: EventCategory::Other, path: b"/a/index.ts".to_vec() },
    ];
    let plan = plan_batch(&events);
    assert_eq!(plan.len(), 2);
    assert!(matches!(&plan[0], WatchAction::RunTransform { kind: FileKind::Script, .. }));
    assert!(matches!(&plan[1], WatchAction::Evict { .. }));
}

#[test]
fn recording_tracks_counts_and_overwrites_status() {
    let mut map = StatusMap::new();
    map.record(b"/site/index.template.html", FileKind::Html, Ok(()));
    assert_eq!(map.invocation_count(b"/site/index.template.html"), 1);

    map.record(
        b"/site/index.template.html",
        FileKind::Html,
        Err("boom".to_string()),
    );
    assert_eq!(map.invocation_count(b"/site/index.template.html"), 2);
    assert!(map.contains(b"/site/index.template.html"));
    assert_eq!(map.len(), 1);

    map.record(b"/js/index.ts", FileKind::Script, Ok(()));
    assert_eq!(map.len(), 2);
    assert_eq!(map.invocation_count(b"/js/index.ts"), 1);
}

#[test]
fn evicting_removes_only_the_given_path() {
    let mut map = StatusMap::new();
    map.record(b"/a/index.ts", FileKind::Script, Ok(()));
    map.record(b"/b/index.ts", FileKind::Script, Ok(()));
    map.evict(b"/a/index.ts");
    assert!(!map.contains(b"/a/index.ts"));
    assert!(map.contains(b"/b/index.ts"));
    map.evict(b"/not/tracked");
    assert_eq!(map.len(), 1);
}

#[test]
fn a_transform_failure_only_marks_that_file() {
    let mut map = StatusMap::new();
    map.record(b"/a/index.ts", FileKind::Script, Err("exploded".to_string()));
    map.record(b"/b/index.ts", FileKind::Script, Ok(()));
    let table = map.render_table();
    assert!(table.contains("`/a/index.ts` failed to bundle (1):\nexploded"));
    assert!(table.contains("`/b/index.ts` was bundled (1)"));
}

#[test]
fn status_lines_use_the_kind_specific_verbs() {
    let templated = FileStatus { event_count: 3, last_status: Ok(()), kind: FileKind::Html };
    assert_eq!(templated.describe(), "was templated (3)");
    let failed = FileStatus {
        event_count: 12,
        last_status: Err("no such file".to_string()),
        kind: FileKind::Html,
    };
    assert_eq!(failed.describe(), "failed to template (12):\nno such file");
}

#[test]
fn bundler_outcomes_map_to_their_errors() {
    assert!(matches!(
        interpret_bundler(ToolOutcome::Missing),
        Err(BundleScriptError::NoBundler)
    ));
    match interpret_bundler(ToolOutcome::Exited {
        code: Some(2),
        success: false,
        stdout: String::new(),
        stderr: "bad import".to_string(),
    }) {
        Err(BundleScriptError::BundlerProcessError { stderr, status }) => {
            assert_eq!(stderr, "bad import");
            assert_eq!(status, 2);
        }
        other => panic!("expected a bundler failure, got {other:?}"),
    }
    assert!(interpret_bundler(ToolOutcome::Exited {
        code: Some(0),
        success: true,
        stdout: String::new(),
        stderr: String::new(),
    })
    .is_ok());
}

#[test]
fn formatter_outcomes_map_to_their_errors() {
    assert!(matches!(
        interpret_formatter(ToolOutcome::Missing),
        Err(TemplateError::NoFormatter)
    ));
    match interpret_formatter(ToolOutcome::Exited {
        code: None,
        success: false,
        stdout: String::new(),
        stderr: "oops".to_string(),
    }) {
        Err(TemplateError::FormatterError { stderr, status }) => {
            assert_eq!(stderr, "oops");
            assert_eq!(status, i32::MIN);
        }
        other => panic!("expected a formatter failure, got {other:?}"),
    }
    match interpret_formatter(ToolOutcome::Exited {
        code: Some(0),
        success: true,
        stdout: "<p>formatted</p>".to_string(),
        stderr: String::new(),
    }) {
        Ok(out) => assert_eq!(out, "<p>formatted</p>"),
        other => panic!("expected the formatted output, got {other:?}"),
    }
}

#[test]
fn spawn_failures_map_to_their_errors() {
    match interpret_bundler(ToolOutcome::SpawnFailed { detail: "denied".to_string() }) {
        Err(BundleScriptError::SpawnBundlerProcess { detail }) => assert_eq!(detail, "denied"),
        other => panic!("expected a spawn failure, got {other:?}"),
    }
    match interpret_formatter(ToolOutcome::SpawnFailed { detail: "denied".to_string() }) {
        Err(TemplateError::SpawnFormatter { detail }) => assert_eq!(detail, "denied"),
        other => panic!("expected a spawn failure, got {other:?}"),
    }
}

#[test]
fn command_errors_render_their_cause_chain() {
    let err = htmplate::CommandError::Bundle { source: BundleScriptError::NoBundler };
    assert_eq!(
        err.describe(),
        "failed to bundle script:\nthe system does not have the bundler `deno`"
    );
}

#[test]
fn signal_terminated_tools_render_a_signed_code() {
    let err = BundleScriptError::BundlerProcessError {
        stderr: "killed".to_string(),
        status: -9,
    };
    assert_eq!(err.describe(), "the bundler process exited with code -9: killed");
}
