use hot_reload::compiler::{recompile_command, to_package_uri, CompilerOutputHandler, ResidentCompiler, SessionState};

#[test]
fn package_uri_rewrites_path_after_lib() {
    assert_eq!(to_package_uri("/a/b/lib/src/main.dart", "demo"), "package:demo/src/main.dart");
}

#[test]
fn package_uri_uses_last_lib_segment() {
    assert_eq!(to_package_uri("/w/lib/x/lib/main.dart", "app"), "package:app/main.dart");
}

#[test]
fn package_uri_ignores_segments_that_only_contain_lib() {
    assert_eq!(to_package_uri("/w/library/lib/a.dart", "app"), "package:app/a.dart");
    assert_eq!(to_package_uri("/w/libs/a.dart", "app"), "package:app");
}

#[test]
fn package_uri_of_relative_path() {
    assert_eq!(to_package_uri("lib/main.dart", "flutter_gallery"), "package:flutter_gallery/main.dart");
}

#[test]
fn result_block_yields_output() {
    let mut h = CompilerOutputHandler::new();
    assert!(h.on_line("result T").is_none());
    assert_eq!(h.boundary_key(), "T");
    let out = h.on_line("T /out/app.dill 0").expect("a compile output");
    assert_eq!(out.output, "/out/app.dill");
    assert_eq!(out.errors, 0);
    assert_eq!(h.boundary_key(), "");
}

#[test]
fn bare_boundary_line_yields_nothing() {
    let mut h = CompilerOutputHandler::new();
    assert!(h.on_line("result T").is_none());
    assert!(h.on_line("T").is_none());
    assert_eq!(h.boundary_key(), "T");
}

#[test]
fn lines_inside_block_are_skipped() {
    let mut h = CompilerOutputHandler::new();
    assert!(h.on_line("compiling lib/main.dart").is_none());
    assert_eq!(h.boundary_key(), "");
    assert!(h.on_line("result 1234-abcd").is_none());
    assert!(h.on_line("lib/main.dart:3:4: Error: missing ;").is_none());
    let out = h.on_line("1234-abcd build/app.dill 3").expect("a compile output");
    assert_eq!(out.output, "build/app.dill");
    assert_eq!(out.errors, 3);
}

#[test]
fn malformed_error_count_yields_nothing() {
    let mut h = CompilerOutputHandler::new();
    h.on_line("result K");
    assert!(h.on_line("K /out/app.dill many").is_none());
    assert!(h.on_line("K /out/app.dill").is_none());
    assert!(h.on_line("K /out/app.dill 99999999999").is_none());
    assert_eq!(h.boundary_key(), "K");
    let out = h.on_line("K /out/app.dill -2 extra").expect("a compile output");
    assert_eq!(out.errors, -2);
}

#[test]
fn recompile_command_lists_changed_files() {
    let files = vec!["/p/lib/a.dart".to_string(), "/p/lib/src/b.dart".to_string()];
    let text = recompile_command("demo", "/p/lib/main.dart", &files, "TOK");
    assert_eq!(
        text,
        "recompile package:demo/main.dart TOK\npackage:demo/a.dart\npackage:demo/src/b.dart\nTOK\n"
    );
}

#[test]
fn recompile_command_without_changes() {
    let text = recompile_command("demo", "/p/lib/main.dart", &Vec::new(), "TOK");
    assert_eq!(text, "recompile package:demo/main.dart TOK\nTOK\n");
}

#[test]
fn session_commands() {
    let mut c = ResidentCompiler::new();
    assert_eq!(c.state_now(), SessionState::Uninitialized);
    assert_eq!(c.start("demo", "/p/lib/main.dart"), "compile package:demo/main.dart\n");
    assert_eq!(c.state_now(), SessionState::Ready);
    assert_eq!(c.accept(), "accept\n");
    let files = vec!["/p/lib/a.dart".to_string()];
    let text = c.recompile("/p/lib/main.dart", &files);
    assert_eq!(c.state_now(), SessionState::AwaitingDecision);
    let lines: Vec<&str> = text.lines().collect();
    assert_eq!(lines.len(), 3);
    let token = lines[2];
    assert_eq!(token.len(), 36);
    assert!(token.chars().all(|ch| ch.is_ascii_hexdigit() || ch == '-'));
    assert_eq!(lines[0], format!("recompile package:demo/main.dart {}", token));
    assert_eq!(lines[1], "package:demo/a.dart");
    assert_eq!(c.reject(), "reject\n");
    assert_eq!(c.state_now(), SessionState::Ready);
}

#[test]
fn recompile_tokens_differ() {
    let mut c = ResidentCompiler::new();
    c.start("demo", "/p/lib/main.dart");
    let a = c.recompile("/p/lib/main.dart", &Vec::new());
    c.accept();
    let b = c.recompile("/p/lib/main.dart", &Vec::new());
    assert_ne!(a, b);
}

#[test]
fn fields_are_read_after_a_key_with_spaces() {
    let mut h = CompilerOutputHandler::new();
    assert!(h.on_line("result a b").is_none());
    assert_eq!(h.boundary_key(), "a b");
    let out = h.on_line("a b /p 0").expect("a compile output");
    assert_eq!(out.output, "/p");
    assert_eq!(out.errors, 0);
    assert_eq!(h.boundary_key(), "");
}

#[test]
fn key_followed_by_other_text_yields_nothing() {
    let mut h = CompilerOutputHandler::new();
    h.on_line("result T");
    assert!(h.on_line("Tx /out/app.dill 0").is_none());
    assert_eq!(h.boundary_key(), "T");
}
