use baerscript::grid::{Grid, Point};
use baerscript::parser::{
    interpret, needs_input, start_engine, step, Engine, RuntimeFault, StepResult,
};
use baerscript::render::{decimal_bytes, output_char};
use baerscript::token::Token;

fn lines_of(text: &str) -> Vec<String> {
    text.lines().map(|l| l.to_string()).collect()
}

#[test]
fn symbols_round_trip_through_their_rendering() {
    let all = vec![
        Token::Add,
        Token::Multiply,
        Token::Subtract,
        Token::Left,
        Token::Right,
        Token::Up,
        Token::Down,
        Token::Comment,
        Token::BlankSpace,
        Token::OpenSquareBracket,
        Token::ClosedSquareBracket,
    ];
    for t in all {
        assert_eq!(Token::from_char(t.to_char()), Ok(t));
    }
    // Null renders as a space, which parses back as a blank
    assert_eq!(Token::Null.to_char(), ' ');
    assert_eq!(Token::from_char(' '), Ok(Token::BlankSpace));
    assert_eq!(Token::from_char('.'), Ok(Token::Null));
}

#[test]
fn unknown_characters_are_parse_errors() {
    let e = Token::from_char('q').unwrap_err();
    assert_eq!(e.character, 'q');
    assert!(Token::from_char('!').is_err());
    // tab and the historical blank character both parse as blanks
    assert_eq!(Token::from_char('\t'), Ok(Token::BlankSpace));
    assert_eq!(Token::from_char('\u{0032}'), Ok(Token::BlankSpace));
}

#[test]
fn moving_up_from_row_zero_is_a_fatal_fault() {
    let mut grid = Grid::build(&lines_of("^")).unwrap();
    assert_eq!(interpret(&mut grid, &Vec::new()), Err(RuntimeFault::MovedAboveGrid));
}

#[test]
fn reading_past_the_supplied_inputs_is_a_fault() {
    let mut grid = Grid::build(&lines_of("<v")).unwrap();
    assert_eq!(interpret(&mut grid, &Vec::new()), Err(RuntimeFault::InputExhausted));
}

#[test]
fn an_input_value_lands_in_the_current_column_register() {
    let mut grid = Grid::build(&lines_of("<v")).unwrap();
    assert_eq!(interpret(&mut grid, &vec![42]), Ok((3, Vec::new())));
    assert_eq!(grid.data, vec![42, 0]);
}

#[test]
fn an_output_step_emits_the_register_value_unchanged() {
    let mut grid = Grid::build(&lines_of(">v")).unwrap();
    assert_eq!(interpret(&mut grid, &Vec::new()), Ok((3, vec![0])));
    assert_eq!(grid.data, vec![0, 0]);
}

#[test]
fn loop_open_sweeps_the_register_pointer() {
    let mut grid = Grid::build(&lines_of("[+v")).unwrap();
    let mut eng = start_engine(&mut grid);
    assert!(!needs_input(&grid, &eng));

    // `[`: the instruction pointer takes the tripling step while the
    // register pointer sweeps one column right, diverging from it
    assert!(matches!(step(&mut grid, &mut eng, None), StepResult::Stepped { output: None }));
    assert!(eng.looping);
    assert_eq!((eng.x, eng.y), (3, 0));
    assert_eq!((grid.x, grid.y), (1, 0));

    // the synthetic Null beyond the right edge: sweep continues
    assert!(matches!(step(&mut grid, &mut eng, None), StepResult::Stepped { .. }));
    assert_eq!((eng.x, eng.y), (1, 0));
    assert_eq!((grid.x, grid.y), (2, 0));

    // `+` now increments the register two columns right of the pointer
    assert!(matches!(step(&mut grid, &mut eng, None), StepResult::Stepped { .. }));
    assert_eq!(grid.data, vec![0, 0, 1]);
    // the sweep reached the last column, so the register pointer
    // re-synchronizes to the instruction pointer
    assert_eq!((eng.x, eng.y), (0, 0));
    assert_eq!((grid.x, grid.y), (0, 0));
}

#[test]
fn loop_close_clears_the_flag_and_resynchronizes() {
    let mut grid = Grid {
        data: vec![0, 0],
        x: 0,
        y: 0,
        rows: 1,
        columns: 2,
        tokens: vec![
            Point { token: Token::ClosedSquareBracket },
            Point { token: Token::Down },
        ],
    };
    let mut eng = Engine { x: 0, y: 0, looping: true, pending: 0, steps: 0 };
    assert!(matches!(step(&mut grid, &mut eng, None), StepResult::Stepped { .. }));
    assert!(!eng.looping);
    assert_eq!((eng.x, eng.y), (3, 0));
    assert_eq!((grid.x, grid.y), (3, 0));
}

#[test]
fn a_halted_machine_reports_halt_and_mutates_nothing() {
    let mut grid = Grid::build(&lines_of("+")).unwrap();
    let mut eng = start_engine(&mut grid);
    eng.y = 1;
    assert!(matches!(step(&mut grid, &mut eng, None), StepResult::Halted));
    assert_eq!(eng.steps, 0);
}

#[test]
fn needs_input_exactly_on_a_left_symbol() {
    let mut grid = Grid::build(&lines_of("<+")).unwrap();
    let mut eng = start_engine(&mut grid);
    assert!(needs_input(&grid, &eng));
    assert!(matches!(step(&mut grid, &mut eng, Some(3)), StepResult::Stepped { .. }));
    assert!(!needs_input(&grid, &eng));
}

#[test]
fn a_step_counter_at_its_limit_is_a_fault() {
    let mut grid = Grid::build(&lines_of(".")).unwrap();
    let mut eng = Engine { x: 0, y: 0, looping: false, pending: 0, steps: u32::MAX };
    match step(&mut grid, &mut eng, None) {
        StepResult::Faulted { fault } => assert_eq!(fault, RuntimeFault::StepOverflow),
        other => panic!("expected a fault, got {:?}", other),
    }
}

#[test]
fn a_position_beyond_the_machine_range_is_a_fault() {
    let mut grid = Grid::build(&lines_of(".")).unwrap();
    // an even column whose tripling step cannot be represented
    let mut eng = Engine { x: usize::MAX / 3 + 1, y: 0, looping: false, pending: 0, steps: 0 };
    match step(&mut grid, &mut eng, None) {
        StepResult::Faulted { fault } => assert_eq!(fault, RuntimeFault::PositionOverflow),
        other => panic!("expected a fault, got {:?}", other),
    }
}

#[test]
fn decimal_bytes_render_exact_digits() {
    assert_eq!(decimal_bytes(0), vec![48]);
    assert_eq!(decimal_bytes(2), vec![50]);
    assert_eq!(decimal_bytes(50), vec![53, 48]);
    assert_eq!(decimal_bytes(407), vec![52, 48, 55]);
    assert_eq!(decimal_bytes(u32::MAX), vec![52, 50, 57, 52, 57, 54, 55, 50, 57, 53]);
}

#[test]
fn output_char_substitutes_the_replacement_glyph() {
    assert_eq!(output_char(65), 'A');
    assert_eq!(output_char(10), '\n');
    // surrogates and values beyond the maximum scalar value are no code
    // points
    assert_eq!(output_char(0xD800), '?');
    assert_eq!(output_char(0x110000), '?');
    assert_eq!(output_char(0x10FFFF), '\u{10FFFF}');
}
