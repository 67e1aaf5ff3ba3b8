use chust::capture::{build_click_command, time, xbgr8888_to_rgb};
use chust::engine::{
    cmd_go_depth, cmd_set_position, cmd_set_position_with_move, default_stockfish_path,
    parse_bestmove_line, parse_fen_line, second_token, u32_to_string,
};

#[test]
fn bestmove_lines_yield_the_move() {
    assert_eq!(parse_bestmove_line("bestmove e2e4 ponder d7d5"), Some(String::from("e2e4")));
    assert_eq!(parse_bestmove_line("bestmove a7a8q"), Some(String::from("a7a8q")));
    assert_eq!(parse_bestmove_line("bestmove e2e4\n"), Some(String::from("e2e4")));
    assert_eq!(parse_bestmove_line("info depth 10"), None);
    assert_eq!(parse_bestmove_line("bestmove"), None);
    assert_eq!(parse_bestmove_line(""), None);
}

#[test]
fn fen_lines_yield_the_board_field() {
    let line = "Fen: rnbqkbnr/pppppppp/8/8/8/8/PPPPPPPP/RNBQKBNR w KQkq - 0 1";
    assert_eq!(
        parse_fen_line(line),
        Some(String::from("rnbqkbnr/pppppppp/8/8/8/8/PPPPPPPP/RNBQKBNR"))
    );
    assert_eq!(parse_fen_line("Checkers: "), None);
    assert_eq!(parse_fen_line("Fen: "), None);
}

#[test]
fn second_token_splits_on_runs_of_whitespace() {
    assert_eq!(second_token("a b c"), Some(String::from("b")));
    assert_eq!(second_token("  a\t\tbb "), Some(String::from("bb")));
    assert_eq!(second_token("lonely"), None);
    assert_eq!(second_token("   "), None);
}

#[test]
fn decimal_rendering() {
    assert_eq!(u32_to_string(0), "0");
    assert_eq!(u32_to_string(7), "7");
    assert_eq!(u32_to_string(10), "10");
    assert_eq!(u32_to_string(4294967295), "4294967295");
}

#[test]
fn engine_commands_are_exact() {
    assert_eq!(cmd_set_position("x w KQkq"), "position fen x w KQkq");
    assert_eq!(cmd_go_depth(10), "go depth 10");
    assert_eq!(cmd_set_position_with_move("x w KQkq", "e2e4"), "position fen x w KQkq moves e2e4");
    assert_eq!(default_stockfish_path(), "stockfish");
}

#[test]
fn click_command_substitution() {
    assert_eq!(build_click_command("tool click {x} {y}", 12, 345), "tool click 12 345");
    assert_eq!(build_click_command("{y}{x}", 1, 2), "21");
    assert_eq!(build_click_command("no placeholders", 1, 2), "no placeholders");
    assert_eq!(build_click_command("{z} {x", 1, 2), "{z} {x");
}

#[test]
fn xbgr_buffer_drops_every_fourth_byte() {
    let data = [10u8, 20, 30, 255, 40, 50, 60, 255, 1, 2];
    let rgb = xbgr8888_to_rgb(&data);
    assert_eq!(rgb, vec![10, 20, 30, 40, 50, 60]);
}

#[test]
fn clock_reads_without_failing() {
    let a = time();
    let b = time();
    // clock readings promise nothing beyond coming back; two u32 readings
    // exist whatever the wall clock says
    let _ = (a, b);
}
