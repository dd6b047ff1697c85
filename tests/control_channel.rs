use cursor_mover::control::{parse_command, Action, Command, Visibility};

#[test]
fn commands_are_read_after_trimming() {
    assert_eq!(parse_command("show\n"), Command::Show);
    assert_eq!(parse_command("hide\n"), Command::Hide);
    assert_eq!(parse_command("  show \r\n"), Command::Show);
    assert_eq!(parse_command("\thide"), Command::Hide);
    assert_eq!(parse_command("\u{3000}show\u{a0}"), Command::Show);
}

#[test]
fn other_lines_are_unknown() {
    assert_eq!(parse_command("frobnicate\n"), Command::Unknown);
    assert_eq!(parse_command("Show\n"), Command::Unknown);
    assert_eq!(parse_command("sh ow"), Command::Unknown);
    assert_eq!(parse_command("showhide"), Command::Unknown);
    assert_eq!(parse_command(""), Command::Unknown);
    assert_eq!(parse_command("   \n"), Command::Unknown);
}

#[test]
fn show_twice_starts_one_loop() {
    let mut vis = Visibility::new();
    assert_eq!(vis.show_overlay(), Action::StartRenderLoop);
    assert_eq!(vis.show_overlay(), Action::Nothing);
    assert!(vis.is_shown());
}

#[test]
fn hide_twice_is_noop_second_time() {
    let mut vis = Visibility::new();
    vis.show_overlay();
    assert_eq!(vis.hide_overlay(), Action::StopRenderLoop);
    assert_eq!(vis.hide_overlay(), Action::Nothing);
    assert!(!vis.is_shown());
}

#[test]
fn hide_while_hidden_spawns_nothing() {
    let mut vis = Visibility::new();
    assert_eq!(vis.handle_line("hide\n"), Action::Nothing);
    assert!(!vis.is_shown());
    assert_eq!(vis.handle_line("show\n"), Action::StartRenderLoop);
    assert_eq!(vis.handle_line("show\n"), Action::Nothing);
}

#[test]
fn unknown_command_is_inert() {
    let mut vis = Visibility::new();
    assert_eq!(vis.handle_line("frobnicate\n"), Action::Nothing);
    assert!(!vis.is_shown());
    vis.handle(Command::Show);
    assert_eq!(vis.handle_line("frobnicate\n"), Action::Nothing);
    assert!(vis.is_shown());
    assert_eq!(vis.handle(Command::Unknown), Action::Nothing);
    assert!(vis.is_shown());
}

#[test]
fn show_after_hide_starts_a_fresh_loop() {
    let mut vis = Visibility::new();
    assert_eq!(vis.handle(Command::Show), Action::StartRenderLoop);
    assert_eq!(vis.handle(Command::Hide), Action::StopRenderLoop);
    assert_eq!(vis.handle(Command::Show), Action::StartRenderLoop);
}
