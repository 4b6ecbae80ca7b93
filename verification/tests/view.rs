//! What is drawn.

use otto_tui::client::ModelChoice;
use otto_tui::events::{FinishReason, LLMEvent, Usage};
use otto_tui::narration::words;
use otto_tui::overlay::{Overlay, PaletteState};
use otto_tui::render::highlight::Highlighter;
use otto_tui::render::{Line, Span};
use otto_tui::splash::SPLASH_TICKS;
use otto_tui::sse::PermissionAsked;
use otto_tui::state::App;
use otto_tui::theme::{Theme, Themes};
use otto_tui::transcript::{TodoItem, TodoStatus, ToolStatus, TranscriptItem, WorkflowView};
use otto_tui::view::header::{fmt_elapsed, spin, truncate_cols, ROTATE_TICKS};
use otto_tui::view::popups::workflow_task_glyph;
use otto_tui::view::prompt::{cursor_position, input_height, input_scroll, INPUT_CAP};
use otto_tui::view::scrollback::{
    scroll_offset, search_offset, transcript_lines, transcript_lines_with_starts, Renderer,
};
use otto_tui::view::search::{highlight_search, search_matches};
use otto_tui::view::{view, Folding, Pane, Rect, MIN_COLS, MIN_ROWS};
use ratatui::backend::TestBackend;
use ratatui::buffer::Buffer;
use ratatui::layout::Alignment;
use ratatui::style::{Color, Modifier, Style};
use ratatui::widgets::{Block, Borders, Clear, Paragraph, Wrap};
use ratatui::Terminal;
use std::collections::BTreeMap;

fn area(width: u16, height: u16) -> Rect {
    Rect { x: 0, y: 0, width, height }
}

fn color(c: otto_tui::theme::Color) -> Color {
    match c {
        otto_tui::theme::Color::Cyan => Color::Cyan,
        otto_tui::theme::Color::Green => Color::Green,
        otto_tui::theme::Color::Yellow => Color::Yellow,
        otto_tui::theme::Color::Red => Color::Red,
        otto_tui::theme::Color::Rgb(r, g, b) => Color::Rgb(r, g, b),
        otto_tui::theme::Color::Indexed(i) => Color::Indexed(i),
        other => panic!("no test draws {other:?}"),
    }
}

fn modifier(m: otto_tui::theme::Modifier) -> Modifier {
    let mut out = Modifier::empty();
    for (set, bit) in [
        (m.bold, Modifier::BOLD),
        (m.dim, Modifier::DIM),
        (m.italic, Modifier::ITALIC),
        (m.underlined, Modifier::UNDERLINED),
        (m.reversed, Modifier::REVERSED),
    ] {
        if set {
            out |= bit;
        }
    }
    out
}

fn style(s: otto_tui::theme::Style) -> Style {
    let mut out = Style::default();
    if let Some(c) = s.fg {
        out = out.fg(color(c));
    }
    if let Some(c) = s.bg {
        out = out.bg(color(c));
    }
    out.add_modifier(modifier(s.add_modifier)).remove_modifier(modifier(s.sub_modifier))
}

fn line(l: &Line) -> ratatui::text::Line<'static> {
    let spans: Vec<ratatui::text::Span> =
        l.spans.iter().map(|s| ratatui::text::Span::styled(s.text.clone(), style(s.style))).collect();
    ratatui::text::Line::from(spans)
}

fn paint(frame: &mut ratatui::Frame, pane: &Pane) {
    let place = ratatui::layout::Rect {
        x: pane.area.x,
        y: pane.area.y,
        width: pane.area.width,
        height: pane.area.height,
    };
    if pane.wipes {
        frame.render_widget(Clear, place);
    }
    let lines: Vec<ratatui::text::Line> = pane.lines.iter().map(line).collect();
    let mut text = Paragraph::new(lines).style(style(pane.style)).scroll((pane.scroll, 0));
    if pane.centered {
        text = text.alignment(Alignment::Center);
    }
    text = match pane.folding {
        Folding::Cut => text,
        Folding::Wrap => text.wrap(Wrap { trim: false }),
        Folding::WrapTrimmed => text.wrap(Wrap { trim: true }),
    };
    if let Some(b) = &pane.border {
        text = text.block(
            Block::default().borders(Borders::ALL).border_style(style(b.style)).title(b.title.clone()),
        );
    }
    frame.render_widget(text, place);
}

fn draw_panes(panes: &[Pane], w: u16, h: u16) -> Buffer {
    let mut terminal = Terminal::new(TestBackend::new(w, h)).unwrap();
    terminal
        .draw(|f| {
            for pane in panes {
                paint(f, pane);
            }
        })
        .unwrap();
    terminal.backend().buffer().clone()
}

fn draw_with(app: &mut App, renderer: &mut Renderer, w: u16, h: u16) -> Buffer {
    let pct = app.context_pct(Some(200_000));
    let screen = view(app, renderer, area(w, h), &None, pct);
    draw_panes(&screen.panes, w, h)
}

fn draw(app: &mut App, w: u16, h: u16) -> Buffer {
    draw_with(app, &mut Renderer::new(None), w, h)
}

fn text_of(buf: &Buffer) -> String {
    buf.content().iter().map(|c| c.symbol()).collect()
}

fn render_sized(app: &mut App, w: u16, h: u16) -> String {
    text_of(&draw(app, w, h))
}

fn render(app: &mut App) -> String {
    render_sized(app, 100, 20)
}

#[test]
fn too_small_shows_floor_message() {
    let mut app = App::new();
    let text = render_sized(&mut app, 40, 8);
    assert!(text.contains("too small"), "floor message shown: {text:?}");
}

#[test]
fn at_min_size_renders_normal_ui() {
    let mut app = App::new();
    let text = render_sized(&mut app, 60, 10);
    assert!(
        text.contains("otto"),
        "normal header shown at min size: {text:?}"
    );
}

#[test]
fn splash_full_shows_portrait_not_normal_ui() {
    let mut app = App::new();
    app.splash = Some(SPLASH_TICKS);
    let text = render_sized(&mut app, 200, 60);
    assert!(text.contains('@'), "llama portrait painted: {text:?}");
    assert!(
        !text.contains("otto"),
        "normal header suppressed under splash"
    );
}

#[test]
fn no_splash_renders_normal_ui() {
    let mut app = App::new();
    let text = render_sized(&mut app, 100, 40);
    assert!(text.contains("otto"), "normal header when no splash");
}

#[test]
fn elapsed_formats_minutes_and_seconds() {
    assert_eq!(fmt_elapsed(0), "0s");
    assert_eq!(fmt_elapsed(45), "45s");
    assert_eq!(fmt_elapsed(59), "59s");
    assert_eq!(fmt_elapsed(60), "1m 00s");
    assert_eq!(fmt_elapsed(65), "1m 05s");
    assert_eq!(fmt_elapsed(125), "2m 05s");
    assert_eq!(fmt_elapsed(3600), "60m 00s");
}

#[test]
fn error_item_renders_in_transcript() {
    let mut app = App::new();
    app.transcript.push(TranscriptItem::Error(
        "lost connection to otto server".into(),
    ));
    let text = render(&mut app);
    assert!(text.contains("error:"), "error row painted: {text:?}");
    assert!(text.contains("lost connection to otto server"));
}

#[test]
fn one_col_below_floor_shows_message() {
    let mut app = App::new();
    let text = render_sized(&mut app, MIN_COLS - 1, MIN_ROWS);
    assert!(
        text.contains("too small"),
        "floor message shown one column below width floor: {text:?}"
    );
}

#[test]
fn one_row_below_floor_shows_message() {
    let mut app = App::new();
    let text = render_sized(&mut app, MIN_COLS, MIN_ROWS - 1);
    assert!(
        text.contains("too small"),
        "floor message shown one row below height floor: {text:?}"
    );
}

#[test]
fn empty_session_shows_hint() {
    let mut app = App::new();
    let text = render(&mut app);
    assert!(text.contains("help"), "footer hint present: {text:?}");
}

#[test]
fn transcript_shows_assistant_text() {
    let mut app = App::new();
    app.transcript
        .push(TranscriptItem::Assistant("hello world".into()));
    assert!(render(&mut app).contains("hello world"));
}

#[test]
fn line_cache_reused_when_gen_and_width_match() {
    let mut app = App::new();
    let mut renderer = Renderer::new(None);
    app.transcript
        .push(TranscriptItem::Assistant("hello".into()));
    let _ = draw_with(&mut app, &mut renderer, 100, 20);
    let gen_before = renderer.cache.as_ref().unwrap().generation;
    let _ = draw_with(&mut app, &mut renderer, 100, 20);
    let c = renderer.cache.as_ref().unwrap();
    assert_eq!(c.generation, gen_before);
    assert_eq!(c.generation, app.render_gen);
}

#[test]
fn line_cache_rebuilds_after_gen_bump() {
    let mut app = App::new();
    let mut renderer = Renderer::new(None);
    app.transcript
        .push(TranscriptItem::Assistant("hello".into()));
    let _ = draw_with(&mut app, &mut renderer, 100, 20);
    app.transcript.push(TranscriptItem::User("more".into()));
    app.render_gen += 1;
    let _ = draw_with(&mut app, &mut renderer, 100, 20);
    let c = renderer.cache.as_ref().unwrap();
    assert_eq!(c.generation, app.render_gen);
    assert_eq!(c.item_line_starts.len(), 2, "the new item is assembled");
}

#[test]
fn highlight_does_not_mutate_cached_base_across_frames() {
    let mut app = App::new();
    let mut renderer = Renderer::new(None);
    app.transcript
        .push(TranscriptItem::Assistant("foo bar foo".into()));
    app.open_search();
    for c in "foo".chars() {
        app.search_input(c);
    }
    let _ = text_of(&draw_with(&mut app, &mut renderer, 100, 20));
    let _ = text_of(&draw_with(&mut app, &mut renderer, 100, 20));
    let cached_spans: usize = renderer
        .cache
        .as_ref()
        .unwrap()
        .lines
        .iter()
        .map(|l| l.spans.len())
        .sum();
    let fresh_spans: usize = transcript_lines(&mut renderer.highlighter, &app.transcript, &app.themes.active()).iter().map(|l| l.spans.len()).sum();
    assert_eq!(
        cached_spans, fresh_spans,
        "cached base must stay unhighlighted (span count stable, not growing)"
    );

    let first = text_of(&draw_with(&mut app, &mut renderer, 100, 20));
    let second = text_of(&draw_with(&mut app, &mut renderer, 100, 20));
    assert!(first.contains("1/1"), "expected a single match: {first:?}");
    assert_eq!(first.contains("1/1"), second.contains("1/1"));
}

#[test]
fn header_renders_thinking_status() {
    let mut app = App::new();
    app.status = "…thinking".into();
    let text = render(&mut app);
    assert!(text.contains("thinking"), "busy status visible: {text:?}");
}

#[test]
fn header_renders_error_status() {
    let mut app = App::new();
    app.status = "error: no anthropic credentials".into();
    assert!(
        render(&mut app).contains("error:"),
        "error status visible in header"
    );
}

#[test]
fn header_renders_retry_status_busy_not_error() {
    let mut app = App::new();
    app.fold_event(LLMEvent::Retry { attempt: 3, max: 5, delay_ms: 16000, message: "http error: status 429".into(), salvaged: false });
    let text = render(&mut app);
    assert!(
        text.contains("rate-limited — retrying 3/5 (16s)"),
        "header shows retry status: {text:?}"
    );
}

#[test]
fn header_status_dot_color_by_state() {
    fn dot_fg(app: &mut App) -> Option<Color> {
        let buf = draw(app, 100, 20);
        (0..buf.area.width)
            .map(|x| &buf[(x, 0)])
            .find(|c| c.symbol() == "●")
            .and_then(|c| c.style().fg)
    }
    let mut ready = App::new();
    ready.status = "ready".into();
    assert_eq!(dot_fg(&mut ready), Some(Color::Green));

    let mut busy = App::new();
    busy.status = "…thinking".into();
    assert_eq!(dot_fg(&mut busy), Some(Color::Yellow));

    let mut err = App::new();
    err.status = "error: boom".into();
    assert_eq!(dot_fg(&mut err), Some(Color::Red));
}

#[test]
fn header_keeps_status_at_narrow_width() {
    let mut app = App::new();
    app.status = "ready".into();
    app.session_id = Some("a-very-long-session-identifier".into());
    app.model = Some("anthropic/sonnet-4-5".into());
    let buf = draw(&mut app, MIN_COLS, MIN_ROWS);
    let text: String = buf.content().iter().map(|c| c.symbol()).collect();
    assert!(text.contains('●'), "dot survives narrow: {text:?}");
    assert!(
        text.contains("ready"),
        "status word survives narrow: {text:?}"
    );
    assert!(text.contains("otto"), "brand survives narrow: {text:?}");
}

#[test]
fn overlay_titles_are_title_case() {
    let mut app = App::new();
    app.overlay = Overlay::Help;
    assert!(render(&mut app).contains("Help"), "help title normalized");
}

#[test]
fn permission_overlay_shows_prompt() {
    let mut app = App::new();
    app.overlay = Overlay::Permission(PermissionAsked {
        id: "p".into(),
        session_id: "s".into(),
        permission: "edit".into(),
        patterns: vec![],
    });
    let text = render(&mut app);
    assert!(text.contains("edit"), "shows permission name");
    assert!(
        text.contains('y') && text.contains('n'),
        "shows y/n choices"
    );
}

#[test]
fn tool_item_renders_status_marker() {
    let mut app = App::new();
    app.transcript.push(TranscriptItem::Tool {
        name: "read".into(),
        status: ToolStatus::Success,
        title: "read a.rs".into(),
        input: None,
        output: None,
        expanded: false,
    });
    let text = render(&mut app);
    assert!(text.contains("read a.rs"));
    assert!(text.contains('✓'), "shows OK status marker: {text:?}");
}

#[test]
fn transcript_autofollows_to_newest() {
    let mut app = App::new();
    for i in 0..40 {
        app.transcript
            .push(TranscriptItem::Assistant(format!("item-{i}")));
    }

    let buf = draw(&mut app, 60, 10);
    let text: String = buf.content().iter().map(|c| c.symbol()).collect();

    assert!(
        text.contains("item-39"),
        "newest item should be visible: {text:?}"
    );
    assert!(
        !text.contains("item-0"),
        "earliest item should have scrolled out of view: {text:?}"
    );
}

#[test]
fn more_indicator_shows_when_scrolled_to_top() {
    let mut app = App::new();
    for i in 0..40 {
        app.transcript
            .push(TranscriptItem::Assistant(format!("item-{i}")));
    }
    app.scroll = 100;
    let text = render(&mut app);
    assert!(
        text.contains("▼ more"),
        "more-below indicator must show when scrolled to the top: {text:?}"
    );
}

#[test]
fn assistant_markdown_and_autofollow() {
    let mut app = App::new();
    for i in 0..40 {
        app.transcript
            .push(TranscriptItem::Assistant(format!("**line {i}**")));
    }
    let text = render(&mut app);
    assert!(text.contains("line 39"), "newest visible");
    assert!(!text.contains("line 0"), "oldest scrolled off");
}

#[test]
fn list_overlay_does_not_panic_on_short_terminal() {
    let mut app = App::new();
    app.models = vec![
        ModelChoice {
            provider: "anthropic".into(),
            model: "sonnet-3".into(),
        },
        ModelChoice {
            provider: "anthropic".into(),
            model: "sonnet-3-opus".into(),
        },
        ModelChoice {
            provider: "openai".into(),
            model: "gpt-4".into(),
        },
        ModelChoice {
            provider: "openai".into(),
            model: "gpt-4-turbo".into(),
        },
        ModelChoice {
            provider: "ollama".into(),
            model: "llama3".into(),
        },
    ];
    app.open_picker(Overlay::Models);

    let text = render_sized(&mut app, MIN_COLS, MIN_ROWS);
    assert!(text.contains("anthropic/sonnet-3"), "the list shows: {text:?}");
}

#[test]
fn models_overlay_shows_items_and_selection_marker() {
    let mut app = App::new();
    app.models = vec![
        ModelChoice {
            provider: "anthropic".into(),
            model: "sonnet-3".into(),
        },
        ModelChoice {
            provider: "openai".into(),
            model: "gpt-4".into(),
        },
    ];
    app.open_picker(Overlay::Models);
    let text = render(&mut app);
    assert!(text.contains("anthropic/sonnet-3"), "{text:?}");
    assert!(text.contains("openai/gpt-4"), "{text:?}");
    assert!(text.contains('>'), "shows selection marker: {text:?}");
}

#[test]
fn palette_overlay_shows_query_and_commands() {
    let mut app = App::new();
    app.open_palette();
    for c in "ch".chars() {
        app.palette_input(c);
    }
    let text = render(&mut app);
    assert!(text.contains("> ch"), "shows query line");
    assert!(text.contains("Change model"), "shows a filtered command");
    assert!(
        text.contains("> Change model"),
        "selected row shows > marker: {text:?}"
    );
}

#[test]
fn palette_overlay_shows_no_match() {
    let mut app = App::new();
    app.open_palette();
    for c in "zzzz".chars() {
        app.palette_input(c);
    }
    let text = render(&mut app);
    assert!(text.contains("(no match)"));
}

#[test]
fn files_overlay_shows_results_and_check_marker() {
    let mut app = App::new();
    app.open_file_picker();
    app.files_loaded(vec!["Cargo.toml".into(), "src/main.rs".into()], false);
    app.file_toggle();
    let text = render(&mut app);
    assert!(text.contains("Cargo.toml"));
    assert!(text.contains('✓'), "attached row marked");
}

#[test]
fn files_overlay_loading_and_no_match() {
    let mut app = App::new();
    app.open_file_picker();
    let loading = render(&mut app);
    assert!(loading.contains("loading"), "shows loading before results");
    app.files_loaded(vec!["a.rs".into()], false);
    for c in "zzz".chars() {
        app.file_input(c);
    }
    let text = render(&mut app);
    assert!(text.contains("(no match)"));
}

#[test]
fn workflow_overlay_renders_tasks_and_state() {
    let mut app = App::new();
    let mut tasks = BTreeMap::new();
    tasks.insert(1u32, ("DONE".to_string(), "review clean".to_string()));
    tasks.insert(2u32, ("REVIEWING".to_string(), String::new()));
    tasks.insert(3u32, ("pending".to_string(), String::new()));
    app.workflow = Some(WorkflowView {
        kind: "sdd".into(),
        arg: "docs/plan.md".into(),
        session: "ses_1".into(),
        tasks,
        done: None,
    });
    app.overlay = Overlay::WorkflowStatus;
    let text = render(&mut app);
    assert!(text.contains("Workflow status"), "title: {text:?}");
    assert!(
        text.contains("sdd · docs/plan.md · running"),
        "summary: {text:?}"
    );
    assert!(text.contains("task 1"), "task row: {text:?}");
    assert!(text.contains('✔') && text.contains('⟳'), "glyphs: {text:?}");
    assert!(text.contains("esc close"), "hint: {text:?}");
}

#[test]
fn footer_shows_cancel_hint_while_workflow_active() {
    let mut app = App::new();
    app.workflow = Some(WorkflowView {
        kind: "sdd".into(),
        arg: "p.md".into(),
        session: "s".into(),
        tasks: BTreeMap::new(),
        done: None,
    });
    assert!(
        render(&mut app).contains("ctrl+x cancel"),
        "cancel hint shows while running"
    );
    if let Some(w) = &mut app.workflow {
        w.done = Some(true);
    }
    assert!(
        !render(&mut app).contains("ctrl+x cancel"),
        "hint gone when done"
    );
}

#[test]
fn chip_line_shows_attached_names() {
    let mut app = App::new();
    app.attachments = vec!["src/main.rs".into(), "Cargo.toml".into()];
    let text = render(&mut app);
    assert!(
        text.contains("main.rs") && text.contains("Cargo.toml"),
        "chip shows basenames"
    );
}

#[test]
fn todos_panel_expanded_shows_count_and_glyphs() {
    let mut app = App::new();
    app.todos = vec![
        TodoItem {
            content: "scaffold crate".into(),
            status: TodoStatus::Completed,
        },
        TodoItem {
            content: "wire the loop".into(),
            status: TodoStatus::InProgress,
        },
        TodoItem {
            content: "write tests".into(),
            status: TodoStatus::Pending,
        },
    ];
    let text = render(&mut app);
    assert!(text.contains("Todos 1/3"), "shows done/total count");
    assert!(text.contains("scaffold crate"));
    assert!(
        text.contains('✓') && text.contains('•'),
        "status glyphs present"
    );
}

#[test]
fn todos_panel_collapsed_shows_bar() {
    let mut app = App::new();
    app.todos = vec![TodoItem {
        content: "a".into(),
        status: TodoStatus::InProgress,
    }];
    app.todos_collapsed = true;
    let text = render(&mut app);
    assert!(text.contains("▸ Todos 0/1"), "collapsed bar with count");
    assert!(!text.contains("write tests"));
}

#[test]
fn todos_panel_hidden_when_all_done() {
    let mut app = App::new();
    app.todos = vec![TodoItem {
        content: "done".into(),
        status: TodoStatus::Completed,
    }];
    let text = render(&mut app);
    assert!(!text.contains("Todos"), "no panel when nothing active");
}

#[test]
fn empty_transcript_shows_placeholder() {
    let mut app = App::new();
    let text = render(&mut app);
    assert!(
        text.contains("type a message"),
        "empty-state hint: {text:?}"
    );
}

#[test]
fn user_prefix_is_accent() {
    let mut app = App::new();
    app.transcript.push(TranscriptItem::User("hi".into()));
    let buf = draw(&mut app, 100, 20);
    let fg = buf
        .content()
        .iter()
        .find(|c| c.symbol() == "›")
        .and_then(|c| c.style().fg);
    assert_eq!(fg, Some(Color::Cyan));
}

#[test]
fn input_border_is_accent_when_focused_idle_when_overlay_open() {
    fn border_fg(app: &mut App) -> Option<Color> {
        let buf = draw(app, 100, 20);
        for y in (0..buf.area.height).rev() {
            for x in 0..buf.area.width {
                if buf[(x, y)].symbol() == "┌" {
                    return buf[(x, y)].style().fg;
                }
            }
        }
        None
    }
    let mut app = App::new();
    assert_eq!(border_fg(&mut app), Some(Color::Cyan));

    let mut overlaid = App::new();
    overlaid.overlay = Overlay::Help;
    assert_eq!(
        border_fg(&mut overlaid),
        Some(Color::Reset),
        "idle input border is unstyled, not accent"
    );
}

#[test]
fn ctx_pct_color_crosses_thresholds() {
    fn ctx_fg(pct_input: u64) -> Option<Color> {
        let mut app = App::new();
        app.model = Some("anthropic/sonnet-4-5".into());
        app.fold_event(LLMEvent::Finish { reason: FinishReason::Stop, usage: Some(Usage {
                input_tokens: Some(pct_input),
                output_tokens: Some(0),
                total_tokens: Some(pct_input),
                ..Default::default()
            }) });
        let buf = draw(&mut app, 200, 20);
        (buf.area.height - 2..buf.area.height)
            .flat_map(|y| (0..buf.area.width).map(move |x| (x, y)))
            .map(|(x, y)| &buf[(x, y)])
            .find(|c| c.symbol() == "%")
            .and_then(|c| c.style().fg)
    }
    assert_eq!(ctx_fg(20_000), Some(Color::Reset));
    assert_eq!(ctx_fg(160_000), Some(Color::Yellow));
    assert_eq!(ctx_fg(196_000), Some(Color::Red));
}

#[test]
fn input_shows_prompt_glyph() {
    let mut app = App::new();
    assert!(render(&mut app).contains('▌'), "prompt glyph present");
}

#[test]
fn mono_render_has_no_color() {
    let mut app = App::new();
    app.themes = Themes::with(Theme::mono(), Theme::mono(), Theme::mono());
    app.status = "ready".into();
    app.transcript.push(TranscriptItem::User("hi".into()));
    app.transcript.push(TranscriptItem::Tool {
        name: "read".into(),
        status: ToolStatus::Success,
        title: "read a.rs".into(),
        input: None,
        output: None,
        expanded: false,
    });
    let buf = draw(&mut app, 100, 20);
    for c in buf.content() {
        let fg = c.style().fg;
        assert!(
            matches!(fg, None | Some(Color::Reset)),
            "mono cell {:?} has chromatic fg {fg:?}",
            c.symbol()
        );
        let bg = c.style().bg;
        assert!(
            matches!(bg, None | Some(Color::Reset)),
            "mono cell {:?} has chromatic bg {bg:?}",
            c.symbol()
        );
    }
    let text: String = buf.content().iter().map(|c| c.symbol()).collect();
    assert!(
        text.contains('●') && text.contains('✓'),
        "glyphs survive mono"
    );
}

#[test]
fn renders_at_floor_sizes_without_panic() {
    for (w, h) in [(80, 24), (60, 24)] {
        let mut app = App::new();
        app.status = "ready".into();
        app.transcript.push(TranscriptItem::User("hello".into()));
        let buf = draw(&mut app, w, h);
        let text: String = buf.content().iter().map(|c| c.symbol()).collect();
        assert!(
            text.contains("otto") && text.contains('●'),
            "brand+dot at {w}x{h}"
        );
    }
}

#[test]
fn hints_show_empty_set_when_input_empty() {
    let mut app = App::new();
    assert!(app.input.is_empty());
    let text = render(&mut app);
    assert!(text.contains("q quit"), "empty-set token present: {text:?}");
    assert!(
        !text.contains("shift+enter newline"),
        "typing-only chord absent while empty: {text:?}"
    );
}

#[test]
fn hints_show_typing_set_when_input_nonempty() {
    let mut app = App::new();
    app.input.insert('h');
    let text = render(&mut app);
    assert!(
        text.contains("shift+enter newline"),
        "typing-set chord present: {text:?}"
    );
    assert!(
        !text.contains("q quit"),
        "empty-set-only token absent while typing: {text:?}"
    );
}

#[test]
fn search_matches_finds_case_insensitive_indices() {
    let lines = vec![
        Line::raw("hello world"),
        Line::raw("nothing here"),
        Line::raw("HELLO again"),
    ];
    assert_eq!(search_matches(&lines, "hello"), vec![0, 2]);
    assert_eq!(search_matches(&lines, "HELLO"), vec![0, 2]);
    assert_eq!(search_matches(&lines, "nope"), Vec::<usize>::new());
}

#[test]
fn search_matches_empty_pattern_is_inert() {
    let lines = vec![Line::raw("anything"), Line::raw("")];
    assert_eq!(search_matches(&lines, ""), Vec::<usize>::new());
}

#[test]
fn search_matches_concatenates_multi_span_lines() {
    let lines = vec![Line::pair(Span::raw("› ".into()), Span::raw("needle here".into()))];
    assert_eq!(search_matches(&lines, "needle"), vec![0]);
}

#[test]
fn scroll_offset_matches_prior_scroll_math() {
    assert_eq!(scroll_offset(0, 50, 10), (40, 0));
    assert_eq!(scroll_offset(5, 50, 10), (35, 5));
    assert_eq!(scroll_offset(1000, 50, 10), (0, 40));
}

#[test]
fn search_offset_centers_match_and_clamps() {
    assert_eq!(search_offset(50, 100, 20), 40);
    assert_eq!(search_offset(2, 100, 20), 0);
    assert_eq!(search_offset(99, 100, 20), 80);
}

#[test]
fn highlight_search_splits_all_occurrences() {
    let lines = vec![Line::raw("foo bar foo")];
    let theme = Theme::dark();
    let lines = highlight_search(&lines, "foo", Some(0), &theme);
    let parts: Vec<&str> = lines[0].spans.iter().map(|s| s.text.as_str()).collect();
    assert_eq!(parts, vec!["foo", " bar ", "foo"]);
    assert!(lines[0].spans[0]
        .style.add_modifier.reversed);
    assert!(!lines[0].spans[1]
        .style.add_modifier.reversed);
    assert!(lines[0].spans[2]
        .style.add_modifier.reversed);
}

#[test]
fn highlight_search_is_case_insensitive() {
    let lines = vec![Line::raw("Foo")];
    let theme = Theme::dark();
    let lines = highlight_search(&lines, "foo", Some(0), &theme);
    let parts: Vec<&str> = lines[0].spans.iter().map(|s| s.text.as_str()).collect();
    assert_eq!(parts, vec!["Foo"]);
    assert!(lines[0].spans[0]
        .style.add_modifier.reversed);
}

#[test]
fn highlight_search_current_vs_other_styles_differ() {
    let lines = vec![Line::raw("hit"), Line::raw("hit")];
    let theme = Theme::dark();
    let lines = highlight_search(&lines, "hit", Some(0), &theme);
    let current = lines[0].spans[0].style;
    let other = lines[1].spans[0].style;
    assert!(current.add_modifier.reversed);
    assert!(other.add_modifier.underlined);
    assert_ne!(current, other);
}

#[test]
fn highlight_search_handles_multibyte_without_panic() {
    let lines = vec![Line::raw("café ▸ CAFÉ ☃ foo")];
    let theme = Theme::dark();
    let lines = highlight_search(&lines, "foo", Some(0), &theme);
    let parts: Vec<&str> = lines[0].spans.iter().map(|s| s.text.as_str()).collect();
    assert_eq!(parts, vec!["café ▸ CAFÉ ☃ ", "foo"]);

    let lines = vec![Line::raw("x café y")];
    let lines = highlight_search(&lines, "café", Some(0), &theme);
    let parts: Vec<&str> = lines[0].spans.iter().map(|s| s.text.as_str()).collect();
    assert_eq!(parts, vec!["x ", "café", " y"]);
}

#[test]
fn highlight_search_mono_has_no_color_but_keeps_modifier() {
    let lines = vec![Line::raw("hit")];
    let theme = Theme::mono();
    let lines = highlight_search(&lines, "hit", None, &theme);
    let style = lines[0].spans[0].style;
    assert_eq!(style.fg, None);
    assert!(style.add_modifier.underlined);
}

#[test]
fn search_bar_shows_zero_of_zero_with_empty_query() {
    let mut app = App::new();
    app.open_search();
    let text = render(&mut app);
    assert!(text.contains("0/0"), "empty query shows 0/0: {text:?}");
}

#[test]
fn search_bar_shows_match_count_and_ordinal() {
    let mut app = App::new();
    app.transcript
        .push(TranscriptItem::Assistant("foo bar".into()));
    app.transcript.push(TranscriptItem::Assistant("baz".into()));
    app.transcript
        .push(TranscriptItem::Assistant("another foo".into()));
    app.open_search();
    for c in "foo".chars() {
        app.search_input(c);
    }
    let text = render(&mut app);
    assert!(text.contains("/foo"), "shows typed query: {text:?}");
    assert!(text.contains("1/2"), "shows ordinal/count: {text:?}");
}

#[test]
fn search_jump_scroll_brings_match_into_view() {
    let mut app = App::new();
    for i in 0..60 {
        app.transcript
            .push(TranscriptItem::Assistant(format!("item-{i}")));
    }
    let baseline = render(&mut app);
    assert!(
        !baseline.contains("item-0"),
        "baseline: item-0 should be off-screen: {baseline:?}"
    );
    app.open_search();
    for c in "item-0".chars() {
        app.search_input(c);
    }
    let text = render(&mut app);
    assert!(
        text.contains("item-0"),
        "jump-scroll must bring the current match into view: {text:?}"
    );
}

#[test]
fn truncate_cols_counts_display_width() {
    let out = truncate_cols("你好", 3);
    assert!(
        unicode_width::UnicodeWidthStr::width(out.as_str()) <= 3,
        "{out:?}"
    );
    assert_eq!(truncate_cols("abcd", 10), "abcd");
    assert_eq!(truncate_cols("abcdef", 4), "abc…");
}

#[test]
fn header_pads_by_display_width_not_char_count() {
    let mut wide = App::new();
    wide.session_id = Some("字".into());
    wide.status = "ready".into();
    let text = render(&mut wide);
    let header_row: String = text.chars().take(100).collect();
    assert!(header_row.contains('●'), "dot present: {header_row:?}");
}

#[test]
fn help_overlay_contains_all_original_bindings() {
    let mut app = App::new();
    app.overlay = Overlay::Help;
    let text = render(&mut app);
    for token in [
        "ctrl+n new",
        "g agent",
        "enter/t expand",
        "o todos",
        "ctrl+f attach",
    ] {
        assert!(
            text.contains(token),
            "help overlay missing {token:?}: {text:?}"
        );
    }
}

#[test]
fn palette_overlay_shows_key_hints() {
    let theme = Theme::dark();
    let ps = PaletteState {
        query: String::new(),
        selected: 0,
    };
    let mut app = App::new();
    app.themes = Themes::with(theme, theme, theme);
    app.overlay = Overlay::Palette(ps);
    let pane = app.popup(area(50, 14)).unwrap();
    let buf = draw_panes(&[pane], 50, 14);
    let text: String = buf.content().iter().map(|c| c.symbol()).collect();
    assert!(
        text.contains("ctrl+n"),
        "expected key hint in palette, got: {text}"
    );
    assert!(text.contains("New session"));
}

#[test]
fn header_shows_flash_when_idle() {
    let mut app = App::new();
    app.status = "ready".into();
    app.flash("copied");
    let pane = Pane::one_line(area(80, 3), app.header_line(80));
    let text = text_of(&draw_panes(&[pane], 80, 3));
    assert!(
        text.contains("copied"),
        "flash should show in header, got: {text}"
    );
}

#[test]
fn header_busy_suppresses_flash() {
    let mut app = App::new();
    app.status = "…thinking".into();
    app.flash("copied");
    let pane = Pane::one_line(area(80, 3), app.header_line(80));
    let text = text_of(&draw_panes(&[pane], 80, 3));
    assert!(!text.contains("copied"), "busy state must win over flash");
    assert!(text.contains("thinking"));
}

#[test]
fn input_sets_cursor_when_focused() {
    let mut app = App::new();
    app.input.insert('h');
    app.input.insert('i');
    let pos = cursor_position(&app.input, 0, 0, 40, 3);
    assert_eq!(pos, (5, 1));
}

#[test]
fn input_cursor_clamps_to_content_row_after_newline() {
    let mut app = App::new();
    app.input.insert('a');
    app.input.newline();
    let pos = cursor_position(&app.input, 0, 0, 40, 3);
    assert_eq!(
        pos.1, 1,
        "cursor must clamp to the single content row, not the border"
    );
}

#[test]
fn input_box_grows_for_two_lines() {
    let mut app = App::new();
    app.input.insert('a');
    app.input.newline();
    app.input.insert('b');
    let buf = draw(&mut app, 60, 12);
    let (bx, top) = (0..buf.area.height)
        .rev()
        .find_map(|y| {
            (0..buf.area.width)
                .find(|&x| buf[(x, y)].symbol() == "┌")
                .map(|x| (x, y))
        })
        .expect("input box top border found");
    let bottom = (top + 1..buf.area.height)
        .find(|&y| buf[(bx, y)].symbol() == "└")
        .expect("input box bottom border found");
    assert!(
        bottom - top + 1 > 3,
        "input box must grow past the old fixed height for 2 lines"
    );
    let row_of = |ch: char| {
        (top + 1..bottom)
            .find(|&y| (0..buf.area.width).any(|x| buf[(x, y)].symbol() == ch.to_string()))
    };
    let a_row = row_of('a').expect("'a' rendered inside the input box");
    let b_row = row_of('b').expect("'b' rendered inside the input box");
    assert_ne!(
        a_row, b_row,
        "each logical line must get its own visual row"
    );
}

#[test]
fn input_wraps_long_line_across_rows() {
    let mut app = App::new();
    let long: String = "0123456789".repeat(6).chars().take(56).collect::<String>() + "ghij";
    for c in long.chars() {
        app.input.insert(c);
    }
    let text = render_sized(&mut app, 60, 12);
    assert!(text.contains("ghij"));
}

#[test]
fn activity_line_shows_running_tool() {
    let mut app = App::new();
    app.status = "…thinking".into();
    app.transcript.push(TranscriptItem::Tool {
        name: "bash".into(),
        status: ToolStatus::Running,
        title: "bash ls -F".into(),
        input: None,
        output: None,
        expanded: false,
    });
    let pane = Pane::one_line(area(40, 1), app.activity_line(40));
    let text = text_of(&draw_panes(&[pane], 40, 1));
    assert!(text.contains("Running ls -F"), "got: {text}");
    assert!(
        (0..4).any(|frame| text.contains(spin(frame))),
        "spinner glyph present: {text}"
    );
}

#[test]
fn activity_line_falls_back_to_playful_word() {
    let mut app = App::new();
    app.status = "…thinking".into();
    let pane = Pane::one_line(area(40, 1), app.activity_line(40));
    let text = text_of(&draw_panes(&[pane], 40, 1));
    assert!(
        words().iter().any(|w| text.contains(*w)),
        "playful word: {text}"
    );
    assert!(
        (0..4).any(|frame| text.contains(spin(frame))),
        "spinner glyph present: {text}"
    );
    assert!(text.contains("(0s)"), "elapsed shown: {text}");
}

#[test]
fn activity_line_word_rotates_over_time() {
    let render_at = |ticks: u32| -> String {
        let mut app = App::new();
        app.status = "…thinking".into();
        app.busy_ticks = ticks;
        let pane = Pane::one_line(area(40, 1), app.activity_line(40));
        text_of(&draw_panes(&[pane], 40, 1))
    };
    let distinct: std::collections::HashSet<String> =
        (0..8u32).map(|r| render_at(r * ROTATE_TICKS)).collect();
    assert!(distinct.len() > 1, "activity word never rotated");
}

#[test]
fn item_line_starts_track_each_item() {
    let mut app = App::new();
    app.transcript
        .push(TranscriptItem::User("one".into()));
    app.transcript
        .push(TranscriptItem::User("two".into()));
    app.transcript
        .push(TranscriptItem::Reasoning("r".into()));
    let (lines, starts) = transcript_lines_with_starts(&mut Highlighter::new(), &app.transcript, &app.themes.active());
    assert_eq!(starts.len(), 3);
    assert_eq!(starts[0], 0);
    assert_eq!(starts[1], 1);
    assert_eq!(starts[2], 2);
    assert_eq!(lines.len(), 3);
}

#[test]
fn selected_tool_row_gets_accent_bar_in_transcript() {
    let mut app = App::new();
    app.transcript.push(TranscriptItem::Tool {
        name: "read".into(),
        status: ToolStatus::Success,
        title: "read a.rs".into(),
        input: None,
        output: None,
        expanded: false,
    });
    app.tool_cursor = Some(0);
    let mut renderer = Renderer::new(None);
    let theme = app.themes.active();
    renderer.refresh(&app.transcript, &theme, app.render_gen, 40);
    let plan = renderer.cache.as_ref().unwrap().plan(&app.overlay, app.tool_cursor, app.scroll, &theme, 6);
    let buf = draw_panes(&[Pane::bare(area(40, 6), plan.lines)], 40, 6);
    let has_accent_bar = buf
        .content()
        .iter()
        .any(|c| c.symbol() == "▌" && c.style().fg == Some(Color::Cyan));
    assert!(has_accent_bar, "selected tool row should show a cyan ▌ bar");
}

#[test]
fn input_height_empty_is_three() {
    let app = App::new();
    assert_eq!(input_height(&app.input, 20), 3);
}

#[test]
fn input_height_grows_with_lines() {
    let mut app = App::new();
    app.input.insert('a');
    app.input.newline();
    app.input.insert('b');
    assert_eq!(input_height(&app.input, 20), 4);
}

#[test]
fn input_height_caps_at_ten() {
    let mut app = App::new();
    for _ in 0..20 {
        app.input.insert('x');
        app.input.newline();
    }
    assert_eq!(input_height(&app.input, 20), INPUT_CAP);
}

#[test]
fn input_scroll_keeps_cursor_visible() {
    assert_eq!(input_scroll(0, 8), 0);
    assert_eq!(input_scroll(7, 8), 0);
    assert_eq!(input_scroll(8, 8), 1);
    assert_eq!(input_scroll(9, 8), 2);
}

#[test]
fn input_prompt_glyph_visible_when_scrolled() {
    let mut app = App::new();
    for _ in 0..12 {
        app.input.insert('x');
        app.input.newline();
    }
    let text = render_sized(&mut app, 60, 24);
    assert!(
        text.contains('▌'),
        "prompt glyph must remain visible when the input box scrolls: {text:?}"
    );
}

#[test]
fn workflow_task_glyph_maps_terminal_and_progress_labels() {
    let theme = Theme::default();
    assert_eq!(workflow_task_glyph("DONE", &theme).0, '✔');
    assert_eq!(workflow_task_glyph("VERIFIED", &theme).0, '✔');
    assert_eq!(workflow_task_glyph("verified", &theme).0, '✔');
    assert_eq!(workflow_task_glyph("FAILED", &theme).0, '✖');
    assert_eq!(workflow_task_glyph("BLOCKED", &theme).0, '✖');
    assert_eq!(workflow_task_glyph("NEEDS_CONTEXT", &theme).0, '✖');
    assert_eq!(
        workflow_task_glyph("DONE_WITH_CONCERNS", &theme),
        ('✔', theme.status_warn)
    );
    assert_eq!(workflow_task_glyph("PENDING", &theme).0, '·');
    assert_eq!(workflow_task_glyph("REVIEWING", &theme).0, '⟳');
    assert_eq!(workflow_task_glyph("IMPLEMENTED", &theme).0, '⟳');
    assert_eq!(workflow_task_glyph("SOMETHING_UNKNOWN", &theme).0, '⟳');
}
