use cvar_console::{
    init_with_config, CmdType, ConsoleConfig, ColoredConsole, ConsoleError, ConsoleResult, ConsoleWindow, Node, NodeExt, PathFilter,
    Property, Registry, Rgba, TextSpan, Value,
};

fn sample() -> Registry {
    let mut r = Registry::new();
    r.add_list("graphics");
    r.add_int("graphics/fov", 90, "Field of view");
    r.add_int("graphics/gamma", 2, "Gamma");
    r.add_int("audio/volume", 50, "Volume");
    r.add_text("player/name", "anon", "Player name");
    r.add_action("host/quit", "<code>\nQuit the game");
    r
}

fn ok_text(r: ConsoleResult) -> String {
    match r.0 {
        Ok(t) => t,
        Err(e) => panic!("unexpected error {:?}", e),
    }
}

#[test]
fn dispatch_unknown_is_unknown_command() {
    let mut w = ConsoleWindow::new(sample());
    let r = w.dispatch("nonexistent", &[]);
    assert!(matches!(r.0, Err(ConsoleError::UnknownCommand)));
}

#[test]
fn dispatch_property_reads_and_writes() {
    let mut w = ConsoleWindow::new(sample());
    assert_eq!(ok_text(w.dispatch("audio/volume", &[])), "50");
    assert_eq!(ok_text(w.dispatch("audio/volume", &["5"])), "");
    assert_eq!(ok_text(w.registry().get("audio/volume")), "5");
    let bad = w.dispatch("audio/volume", &["abc"]);
    match bad.0 {
        Err(ConsoleError::InvalidValue(d)) => assert!(!d.is_empty()),
        other => panic!("unexpected {:?}", other),
    }
    assert_eq!(ok_text(w.registry().get("audio/volume")), "5");
}

#[test]
fn dispatch_ignores_extra_arguments() {
    let mut w = ConsoleWindow::new(sample());
    assert_eq!(ok_text(w.dispatch("audio/volume", &["7", "8"])), "");
    assert_eq!(ok_text(w.registry().get("audio/volume")), "7");
}

#[test]
fn int_property_rejects_out_of_range_and_accepts_sign() {
    let mut w = ConsoleWindow::new(sample());
    let r = w.dispatch("audio/volume", &["9223372036854775808"]);
    assert!(matches!(r.0, Err(ConsoleError::InvalidValue(_))));
    assert_eq!(ok_text(w.dispatch("audio/volume", &["-12"])), "");
    assert_eq!(ok_text(w.registry().get("audio/volume")), "-12");
    assert_eq!(ok_text(w.dispatch("audio/volume", &["+3"])), "");
    assert_eq!(ok_text(w.registry().get("audio/volume")), "3");
}

#[test]
fn text_property_accepts_anything() {
    let mut w = ConsoleWindow::new(sample());
    assert_eq!(ok_text(w.dispatch("player/name", &["bob"])), "");
    assert_eq!(ok_text(w.dispatch("player/name", &[])), "bob");
}

#[test]
fn find_without_match_is_no_results() {
    let w = ConsoleWindow::new(sample());
    let r = w.registry().find(&PathFilter::Search("zz_no_such_substring".to_string()));
    assert!(matches!(r.0, Err(ConsoleError::NoResults)));
}

#[test]
fn find_empty_lists_details() {
    let w = ConsoleWindow::new(Registry::new());
    let t = ok_text(w.registry().find(&PathFilter::Search(String::new())));
    assert!(t.contains("help:\n\tList all commands and properties\n"));
    assert!(!t.contains("find <text>"));
}

#[test]
fn help_all_and_exact() {
    let mut w = ConsoleWindow::new(sample());
    let all = ok_text(w.registry().find(&PathFilter::All));
    assert!(all.contains("graphics/fov: 90 (Default: 90)\n\tField of view\n"));
    assert!(all.contains("audio/volume: 50 (Default: 50)\n\tVolume\n"));
    assert!(all.contains("find <text>:\n\tSearch for matching commands\n"));
    let one = ok_text(w.registry().help("graphics/gamma"));
    assert_eq!(one, "graphics/gamma: 2 (Default: 2)\n\tGamma\n");
    let missing = w.registry().help("no/such");
    assert!(matches!(missing.0, Err(ConsoleError::UnknownProperty)));
    w.cmd_help(&["graphics/gamma"]);
    let n = w.console().len();
    assert_eq!(w.console().span(n - 1).text(), "graphics/gamma: 2 (Default: 2)\n\tGamma\n");
}

#[test]
fn listing_by_prefix() {
    let mut w = ConsoleWindow::new(sample());
    let t = ok_text(w.dispatch("graphics", &[]));
    assert!(t.contains("graphics/fov: 90 (Default: 90)"));
    assert!(t.contains("graphics/gamma: 2 (Default: 2)"));
    assert!(!t.contains("audio/volume"));
}

#[test]
fn reset_restores_defaults() {
    let mut w = ConsoleWindow::new(sample());
    w.dispatch("audio/volume", &["5"]);
    w.dispatch("graphics/fov", &["70"]);
    assert_eq!(ok_text(w.registry().get("audio/volume")), "5");
    w.cmd_reset(&["audio/volume"]);
    assert_eq!(ok_text(w.registry().get("audio/volume")), "50");
    assert_eq!(ok_text(w.registry().get("graphics/fov")), "70");
    w.cmd_reset(&[]);
    assert_eq!(ok_text(w.registry().get("graphics/fov")), "90");
    let n = w.console().len();
    assert_eq!(w.console().span(n - 1).text(), "OK");
    w.cmd_reset(&["nope"]);
    let n = w.console().len();
    assert_eq!(w.console().span(n - 1).text(), "Unknown property");
    assert_eq!(w.console().span(n - 1).color(), Rgba::red());
}

#[test]
fn registry_reset_all_returns_ok() {
    let mut r = sample();
    r.set("audio/volume", "1");
    assert_eq!(ok_text(r.reset_all()), "OK");
    assert_eq!(ok_text(r.get("audio/volume")), "50");
    let one = r.reset("host/quit");
    assert!(matches!(one.0, Err(ConsoleError::UnknownProperty)));
}

#[test]
fn write_of_read_keeps_value() {
    let mut r = sample();
    r.set("graphics/fov", "-40");
    let v = ok_text(r.get("graphics/fov"));
    assert_eq!(ok_text(r.set("graphics/fov", &v)), "");
    assert_eq!(ok_text(r.get("graphics/fov")), "-40");
}

#[test]
fn set_on_non_property_is_unknown_property() {
    let mut r = sample();
    assert!(matches!(r.set("graphics", "1").0, Err(ConsoleError::UnknownProperty)));
    assert!(matches!(r.set("host/quit", "1").0, Err(ConsoleError::UnknownProperty)));
    assert!(matches!(r.get("missing").0, Err(ConsoleError::UnknownProperty)));
}

#[test]
fn find_command_usage_and_matches() {
    let mut w = ConsoleWindow::new(sample());
    w.cmd_find(&[]);
    let n = w.console().len();
    assert_eq!(w.console().span(n - 1).text(), "Usage: find <name>");
    w.cmd_find(&["gam"]);
    let n = w.console().len();
    assert_eq!(w.console().span(n - 1).text(), "graphics/gamma: 2 (Default: 2)\n\tGamma\n");
    w.cmd_find(&["zz_no_such_substring"]);
    let n = w.console().len();
    assert_eq!(w.console().span(n - 1).text(), "No results");
}

#[test]
fn host_action_is_requested() {
    let mut w = ConsoleWindow::new(sample());
    let r = w.dispatch("host/quit", &["3", "now"]);
    assert_eq!(ok_text(r), "");
    let inv = w.take_invocations();
    assert_eq!(inv.len(), 1);
    assert_eq!(inv[0].path, "host/quit");
    assert_eq!(inv[0].args, vec!["3".to_string(), "now".to_string()]);
    assert!(w.take_invocations().is_empty());
    let mut r = sample();
    assert!(matches!(r.call("graphics/fov", &[]).0, Err(ConsoleError::UnknownCommand)));
}

#[test]
fn run_cmd_splits_and_renders() {
    let mut w = ConsoleWindow::new(sample());
    w.run_cmd("audio/volume 12".to_string());
    assert_eq!(ok_text(w.registry().get("audio/volume")), "12");
    w.run_cmd("audio/volume".to_string());
    let n = w.console().len();
    assert_eq!(w.console().span(n - 1).text(), "12");
    assert_eq!(w.console().span(n - 1).color(), Rgba::white());
    w.run_cmd("bogus".to_string());
    let n = w.console().len();
    assert_eq!(w.console().span(n - 1).text(), "Unknown command");
}

#[test]
fn clear_command_empties_log() {
    let mut w = ConsoleWindow::new(sample());
    w.run_cmd("help".to_string());
    assert!(w.console().len() >= 2);
    w.run_cmd("clear".to_string());
    // the empty result of `clear` is the only span left
    assert_eq!(w.console().len(), 1);
    assert_eq!(w.console().span(0).text(), "");
}

#[test]
fn submit_echoes_prompt_and_line() {
    let mut w = ConsoleWindow::new(sample());
    w.submit("graphics/gamma");
    assert_eq!(w.console().span(0).text(), " > ");
    assert_eq!(w.console().span(0).color(), Rgba::cyan());
    assert_eq!(w.console().span(1).text(), "graphics/gamma\n");
    assert_eq!(w.console().span(2).text(), "2");
    assert_eq!(w.console().flatten(), " > \ngraphics/gamma\n\n2");
}

#[test]
fn writeln_skips_blank_and_adds_newline() {
    let mut w = ConsoleWindow::new(Registry::new());
    assert_eq!(w.console().len(), 0);
    w.writeln(TextSpan::new(Rgba::white(), "   \n".to_string()));
    assert_eq!(w.console().len(), 0);
    w.writeln(TextSpan::new(Rgba::white(), "ok".to_string()));
    assert_eq!(w.console().len(), 1);
    assert_eq!(w.console().span(0).text(), "ok\n");
    w.writeln(TextSpan::new(Rgba::red(), "done \t\n".to_string()));
    assert_eq!(w.console().span(1).text(), "done\n");
    w.clear();
    assert_eq!(w.console().len(), 0);
}

#[test]
fn error_messages() {
    assert_eq!(ConsoleError::UnknownProperty.message(), "Unknown property");
    assert_eq!(ConsoleError::UnknownCommand.message(), "Unknown command");
    assert_eq!(ConsoleError::InvalidValue("x".to_string()).message(), "Invalid value: x");
    assert_eq!(ConsoleError::InvalidUsage("find <name>".to_string()).message(), "Usage: find <name>");
    assert_eq!(ConsoleError::NoResults.message(), "No results");
}

#[test]
fn write_result_colors() {
    let mut c = ColoredConsole::new();
    c.write_result(ConsoleResult::ok("fine".to_string()));
    c.write_result(ConsoleResult::err(ConsoleError::NoResults));
    assert_eq!(c.span(0).color(), Rgba::white());
    assert_eq!(c.span(1).color(), Rgba::red());
    assert_eq!(c.span(1).text(), "No results");
    assert_eq!(c.flatten(), "fine\nNo results");
}

#[test]
fn action_details_format() {
    let mut out = String::new();
    Node::Action("<code>\nQuit the game".to_string()).details("quit", &mut out);
    assert_eq!(out, "quit <code>:\n\tQuit the game\n");
    let mut out = String::new();
    Node::Action("just a line".to_string()).details("x", &mut out);
    assert_eq!(out, "x:\n\tjust a line\n");
    let mut out = String::new();
    Node::Action("line\n".to_string()).details("y", &mut out);
    assert_eq!(out, "y:\n\tline\n");
    let mut out = String::new();
    Node::Action("a\nb\nc".to_string()).details("z", &mut out);
    assert_eq!(out, "z a:\n\tb\nc\n");
    let mut out = String::new();
    Node::List.details("g", &mut out);
    assert_eq!(out, "");
    let p = Property {
        value: Value::Text("on".to_string()),
        default: Value::Text("off".to_string()),
        description: "Switch".to_string(),
    };
    let mut out = String::new();
    Node::Prop(p).details("s", &mut out);
    assert_eq!(out, "s: on (Default: off)\n\tSwitch\n");
}

#[test]
fn kinds_resolve() {
    let w = ConsoleWindow::new(sample());
    assert_eq!(w.registry().cmdtype("graphics"), CmdType::List);
    assert_eq!(w.registry().cmdtype("graphics/fov"), CmdType::Prop);
    assert_eq!(w.registry().cmdtype("help"), CmdType::Action);
    assert_eq!(w.registry().cmdtype("nothing"), CmdType::NotFound);
    assert_eq!(Node::List.kind(), CmdType::List);
}

#[test]
fn split_keeps_empty_pieces() {
    let parts = cvar_console::split_spaces_of("a  b");
    assert_eq!(parts, vec!["a", "", "b"]);
    assert_eq!(cvar_console::split_spaces_of(""), vec![""]);
}

#[test]
fn text_helpers() {
    assert!(cvar_console::contains("graphics/fov", "fov"));
    assert!(!cvar_console::contains("fov", "graphics"));
    assert!(cvar_console::starts_with("graphics/fov", "graphics"));
    assert!(!cvar_console::starts_with("graphics/fov", "fov"));
    assert!(cvar_console::same_text("a", "a"));
}

#[test]
fn custom_colors() {
    let green = Rgba { r: 0, g: 255, b: 0, a: 255 };
    let cfg = ConsoleConfig::default().colors(green, Rgba::red(), Rgba::white());
    let mut w = init_with_config(sample(), cfg);
    w.run_cmd("graphics/fov".to_string());
    assert_eq!(w.console().span(0).color(), green);
    w.draw_prompt();
    assert_eq!(w.console().span(1).color(), Rgba::white());
    let w2 = cvar_console::init(Registry::new());
    assert_eq!(w2.registry().len(), 4);
}
