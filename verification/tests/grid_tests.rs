use baerscript::grid::{BuildError, Grid, GridTrait, Point};
use baerscript::parser::interpret;
use baerscript::render::decimal_bytes;
use baerscript::token::Token;

fn lines_of(text: &str) -> Vec<String> {
    text.lines().map(|l| l.to_string()).collect()
}

#[test]
fn empty_grid_test() {
    let grid = Grid::build(&Vec::new());

    assert!(grid.is_ok(), "empty input should provide an empty grid");
}

#[test]
fn empty_grid_has_no_rows_and_executes_zero_steps() {
    let mut grid = Grid::build(&Vec::new()).unwrap();
    assert_eq!(grid.rows, 0);
    assert_eq!(grid.columns, 0);
    assert_eq!(interpret(&mut grid, &Vec::new()), Ok((0, Vec::new())));
}

#[test]
fn increment_print_test() {
    let mut grid = Grid::build(&lines_of("+v\n+v\n>v")).unwrap();

    let mut out = vec![0; 1];

    let (_steps, outputs) = interpret(&mut grid, &Vec::new()).unwrap();
    for v in outputs {
        out.extend(decimal_bytes(v));
    }

    assert_eq!(vec![0, 50], out);
}

#[test]
fn increment_print_walk_in_detail() {
    let mut grid = Grid::build(&lines_of("+v\n+v\n>v")).unwrap();
    assert_eq!((grid.rows, grid.columns), (3, 2));
    assert_eq!(interpret(&mut grid, &Vec::new()), Ok((9, vec![2])));
    assert_eq!(grid.data, vec![2, 0]);
}

#[test]
fn invalid_symbol_names_character_and_position() {
    match Grid::build(&lines_of("+q")) {
        Err(BuildError::InvalidSymbol { line, line_number, column, character }) => {
            assert_eq!(line, "+q");
            assert_eq!(line_number, 1);
            assert_eq!(column, 1);
            assert_eq!(character, 'q');
        }
        other => panic!("expected an invalid-symbol error, got {:?}", other),
    }
}

#[test]
fn invalid_symbol_on_a_later_line() {
    match Grid::build(&lines_of("++\n+!")) {
        Err(BuildError::InvalidSymbol { line_number, column, character, .. }) => {
            assert_eq!(line_number, 2);
            assert_eq!(column, 1);
            assert_eq!(character, '!');
        }
        other => panic!("expected an invalid-symbol error, got {:?}", other),
    }
}

#[test]
fn length_mismatch_names_both_lines() {
    match Grid::build(&lines_of("++\n+")) {
        Err(BuildError::InconsistentLineLength {
            prev_line,
            prev_line_number,
            prev_length,
            line,
            line_number,
            length,
        }) => {
            assert_eq!(prev_line, "++");
            assert_eq!(prev_line_number, 1);
            assert_eq!(prev_length, 2);
            assert_eq!(line, "+");
            assert_eq!(line_number, 2);
            assert_eq!(length, 1);
        }
        other => panic!("expected a length-mismatch error, got {:?}", other),
    }
}

#[test]
fn length_mismatch_is_checked_against_the_previous_nonzero_line() {
    // the empty line occupies no row and imposes no length constraint, so
    // the mismatch is reported between lines 1 and 3
    match Grid::build(&lines_of("++\n\n+++")) {
        Err(BuildError::InconsistentLineLength {
            prev_line_number,
            prev_length,
            line_number,
            length,
            ..
        }) => {
            assert_eq!(prev_line_number, 1);
            assert_eq!(prev_length, 2);
            assert_eq!(line_number, 3);
            assert_eq!(length, 3);
        }
        other => panic!("expected a length-mismatch error, got {:?}", other),
    }
}

#[test]
fn comment_truncates_the_rest_of_a_line() {
    // everything after `#` is never tokenized, not even an invalid character
    let grid = Grid::build(&lines_of("+#q!\n-")).unwrap();
    assert_eq!((grid.rows, grid.columns), (2, 1));
    assert_eq!(grid.tokens, vec![Point { token: Token::Add }, Point { token: Token::Subtract }]);
}

#[test]
fn blank_and_comment_lines_occupy_no_row() {
    let grid = Grid::build(&lines_of("+ +\n\n# only a comment\n\t-\t-")).unwrap();
    assert_eq!((grid.rows, grid.columns), (2, 2));
    assert_eq!(
        grid.tokens,
        vec![
            Point { token: Token::Add },
            Point { token: Token::Add },
            Point { token: Token::Subtract },
            Point { token: Token::Subtract },
        ]
    );
}

#[test]
fn the_blank_quirk_character_is_elided() {
    // U+0032 is historically accepted as a blank and elided like space and tab
    let grid = Grid::build(&lines_of("+2+")).unwrap();
    assert_eq!((grid.rows, grid.columns), (1, 2));
}

#[test]
fn registers_are_one_per_column_and_zeroed() {
    let grid = Grid::build(&lines_of("+++\n...")).unwrap();
    assert_eq!(grid.data, vec![0, 0, 0]);
    assert_eq!((grid.x, grid.y), (0, 0));
}

#[test]
fn get_reads_the_grid_with_a_synthetic_null_edge() {
    let mut g = Grid::new();
    g.set_columns(2);
    g.set_rows(1);
    g.push(Point { token: Token::Add });
    g.push(Point { token: Token::Null });
    assert_eq!(g.get(0, 0), Some(Point { token: Token::Add }));
    assert_eq!(g.get(1, 0), Some(Point { token: Token::Null }));
    // beyond the right edge reads as Null rather than terminating
    assert_eq!(g.get(7, 0), Some(Point { token: Token::Null }));
    // below the last row is the sole termination condition
    assert_eq!(g.get(0, 1), None);
}

#[test]
fn registers_are_read_and_written_under_the_pointer() {
    let mut g = Grid::new();
    g.set_columns(2);
    g.set_rows(1);
    g.push(Point { token: Token::Null });
    g.push(Point { token: Token::Null });
    assert_eq!(g.get_value(), Some(0));
    g.set_value(7);
    assert_eq!(g.get_value(), Some(7));
    g.x = 5;
    assert_eq!(g.get_value(), None);
    g.set_value(9);
    assert_eq!(g.data, vec![7, 0]);
}
