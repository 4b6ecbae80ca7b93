//! The event stream.

use otto_tui::sse::{
    decode_event, FrameDecoder, PermissionAsked, QuestionAsked, QuestionOptionView, QuestionPromptView,
    ServerEvent, WfPhase,
};

#[test]
fn splits_frames_and_strips_data_prefix() {
    let mut d = FrameDecoder::new();
    let out = d.push(b"data: {\"a\":1}\n\ndata: {\"b\":2}\n\n");
    assert_eq!(out, vec!["{\"a\":1}".to_string(), "{\"b\":2}".to_string()]);
}

#[test]
fn buffers_partial_frames_across_pushes() {
    let mut d = FrameDecoder::new();
    assert!(d.push(b"data: {\"x\":").is_empty());
    let out = d.push(b"42}\n\n");
    assert_eq!(out, vec!["{\"x\":42}".to_string()]);
}

#[test]
fn ignores_comment_keepalive_lines() {
    let mut d = FrameDecoder::new();
    let out = d.push(b": keep-alive\n\ndata: {\"ok\":true}\n\n");
    assert_eq!(out, vec!["{\"ok\":true}".to_string()]);
}

#[test]
fn decode_event_reads_permission_asked() {
    let frame = "{\"type\":\"permission.asked\",\"properties\":{\"id\":\"perm_1\",\"sessionID\":\"ses_1\",\"permission\":\"edit\",\"patterns\":[\"*.rs\"],\"metadata\":{}}}";
    let ev = decode_event(frame);
    assert_eq!(
        ev,
        ServerEvent::PermissionAsked(PermissionAsked {
            id: "perm_1".into(),
            session_id: "ses_1".into(),
            permission: "edit".into(),
            patterns: vec!["*.rs".into()],
        })
    );
}

#[test]
fn decodes_workflow_started() {
    let frame = "{\"type\":\"workflow.started\",\"properties\":{\"session\":\"s\",\"kind\":\"sdd\",\"arg\":\"p.md\"}}";
    match decode_event(frame) {
        ServerEvent::Workflow(w) => {
            assert_eq!(w.phase, WfPhase::Started);
            assert_eq!(w.kind, "sdd");
            assert_eq!(w.arg.as_deref(), Some("p.md"));
        }
        other => panic!("expected Workflow, got {other:?}"),
    }
}

#[test]
fn decodes_workflow_progress_and_done() {
    let p = "{\"type\":\"workflow.progress\",\"properties\":{\"session\":\"s\",\"kind\":\"sdd\",\"task_index\":2,\"status\":\"DONE\",\"notes\":\"review clean\"}}";
    match decode_event(p) {
        ServerEvent::Workflow(w) => {
            assert_eq!(w.phase, WfPhase::Progress);
            assert_eq!(w.task_index, Some(2));
            assert_eq!(w.status.as_deref(), Some("DONE"));
            assert_eq!(w.notes, "review clean");
        }
        o => panic!("{o:?}"),
    }
    let d = "{\"type\":\"workflow.done\",\"properties\":{\"session\":\"s\",\"kind\":\"sdd\",\"ok\":true,\"summary\":\"3 task(s) processed\",\"error\":null}}";
    match decode_event(d) {
        ServerEvent::Workflow(w) => {
            assert_eq!(w.phase, WfPhase::Done);
            assert_eq!(w.ok, Some(true));
            assert_eq!(w.summary.as_deref(), Some("3 task(s) processed"));
        }
        o => panic!("{o:?}"),
    }
}

#[test]
fn decodes_workflow_subagent() {
    let f = "{\"type\":\"workflow.subagent\",\"properties\":{\"session\":\"s\",\"task_index\":2,\"verb\":\"bash\",\"detail\":\"cargo test\"}}";
    match decode_event(f) {
        ServerEvent::Subagent(m) => {
            assert_eq!(m.session, "s");
            assert_eq!(m.task_index, 2);
            assert_eq!(m.verb, "bash");
            assert_eq!(m.detail, "cargo test");
        }
        o => panic!("{o:?}"),
    }
}

#[test]
fn decode_event_reads_connected_and_other() {
    assert_eq!(
        decode_event("{\"type\":\"server.connected\",\"properties\":{}}"),
        ServerEvent::Connected
    );
    assert_eq!(
        decode_event("{\"type\":\"message.part.updated\",\"properties\":{}}"),
        ServerEvent::Other
    );
}

#[test]
fn pushed_session_events_are_decoded() {
    assert_eq!(
        decode_event(r#"{"type":"session.busy","properties":{"sessionID":"a"}}"#),
        ServerEvent::SessionBusy { session_id: "a".into() }
    );
    assert_eq!(
        decode_event(r#"{"type":"session.idle","properties":{"sessionID":"a"}}"#),
        ServerEvent::SessionIdle { session_id: "a".into() }
    );
    assert_eq!(
        decode_event(r#"{"type":"session.created","properties":{"sessionID":"a","title":"t"}}"#),
        ServerEvent::SessionCreated { session_id: "a".into(), title: Some("t".into()), parent_id: None }
    );
    assert_eq!(
        decode_event(r#"{"type":"permission.mode_changed","properties":{"sessionID":"a","mode":"full-auto"}}"#),
        ServerEvent::PermissionModeChanged { session_id: "a".into(), mode: "full-auto".into() }
    );
    for frame in [
        r#"{"type":"session.busy","properties":{}}"#,
        r#"{"type":"session.busy"}"#,
        r#"{"type":"permission.mode_changed","properties":{"sessionID":"a"}}"#,
        r#"{"type":"session.gone","properties":{"sessionID":"a"}}"#,
    ] {
        assert_eq!(decode_event(frame), ServerEvent::Other, "{frame}");
    }
}

#[test]
fn question_asks_are_decoded() {
    let frame = r#"{"type":"question.asked","properties":{"id":"q","sessionID":"s","questions":[
        {"question":"which?","header":"h","options":[{"label":"A","description":"d"},{"label":"B"}],"multiple":true}]}}"#;
    let option = |label: &str, description: &str| QuestionOptionView {
        label: label.into(),
        description: description.into(),
    };
    assert_eq!(
        decode_event(frame),
        ServerEvent::QuestionAsked(QuestionAsked {
            id: "q".into(),
            session_id: "s".into(),
            questions: vec![QuestionPromptView {
                question: "which?".into(),
                header: "h".into(),
                options: vec![option("A", "d"), option("B", "")],
                multiple: true,
            }],
        })
    );
    for frame in [
        r#"{"type":"question.asked","properties":{"id":"q","sessionID":"s"}}"#,
        r#"{"type":"question.asked","properties":{"id":"q","sessionID":"s","questions":[{"question":"?"}]}}"#,
        r#"{"type":"question.asked","properties":{"id":"q","sessionID":"s","questions":[{"question":"?","options":[{}]}]}}"#,
    ] {
        assert_eq!(decode_event(frame), ServerEvent::Other, "{frame}");
    }
}
