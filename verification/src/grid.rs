//! The program grid: construction from raw text lines, with validation, and
//! the addressable in-memory representation that the execution engine walks.

use vstd::prelude::*;

use crate::token::{token_of, Token};

verus! {

/// One grid position, holding the symbol stored there.
#[derive(Clone, Copy, Debug, PartialEq, Eq, Structural)]
pub struct Point {
    pub token: Token,
}

/// Scanning a single source line either stops at the first invalid
/// character or yields the line's effective symbols: everything up to the
/// first comment character, with blanks elided.
pub enum ScanLine {
    Invalid { at: int, character: char },
    Symbols { symbols: Seq<Token> },
}

/// The scan of `line` starting at position `j`.
pub open spec fn scan_line_from(line: Seq<char>, j: int) -> ScanLine
    decreases line.len() - j,
{
    if j < 0 || j >= line.len() {
        ScanLine::Symbols { symbols: Seq::empty() }
    } else {
        match token_of(line[j]) {
            None => ScanLine::Invalid { at: j, character: line[j] },
            Some(t) => {
                if t == Token::Comment {
                    ScanLine::Symbols { symbols: Seq::empty() }
                } else if t == Token::BlankSpace {
                    scan_line_from(line, j + 1)
                } else {
                    match scan_line_from(line, j + 1) {
                        ScanLine::Invalid { at, character } => ScanLine::Invalid { at, character },
                        ScanLine::Symbols { symbols } => ScanLine::Symbols {
                            symbols: seq![t] + symbols,
                        },
                    }
                }
            },
        }
    }
}

/// The scan of a whole source line.
pub open spec fn scan_line(line: Seq<char>) -> ScanLine {
    scan_line_from(line, 0)
}

/// Whether every character of the line up to the first comment is a symbol.
pub open spec fn line_valid(line: Seq<char>) -> bool {
    scan_line(line) is Symbols
}

/// The effective symbols of a valid line (empty for an invalid one).
pub open spec fn line_symbols(line: Seq<char>) -> Seq<Token> {
    match scan_line(line) {
        ScanLine::Symbols { symbols } => symbols,
        ScanLine::Invalid { .. } => Seq::empty(),
    }
}

/// The effective length of a line: how many symbols it contributes.
pub open spec fn line_len(line: Seq<char>) -> int {
    line_symbols(line).len() as int
}

/// The views of a sequence of line strings.
pub open spec fn views_of(lines: Seq<String>) -> Seq<Seq<char>> {
    lines.map_values(|s: String| s@)
}

/// The symbols of a sequence of points.
pub open spec fn points_tokens(points: Seq<Point>) -> Seq<Token> {
    points.map_values(|p: Point| p.token)
}

proof fn lemma_points_tokens_push(points: Seq<Point>, p: Point)
    ensures
        points_tokens(points.push(p)) == points_tokens(points).push(p.token),
{
    assert(points_tokens(points.push(p)) =~= points_tokens(points).push(p.token));
}

/// How many of the first `n` lines have a nonzero effective length; those
/// are the lines that occupy a grid row.
pub open spec fn nonzero_rows_upto(lines: Seq<Seq<char>>, n: int) -> int
    decreases n,
{
    if n <= 0 {
        0
    } else {
        nonzero_rows_upto(lines, n - 1) + if line_len(lines[n - 1]) != 0 {
            1int
        } else {
            0int
        }
    }
}

/// The effective symbols of the first `n` lines, concatenated in row-major
/// order (lines of zero effective length contribute nothing).
pub open spec fn symbols_upto(lines: Seq<Seq<char>>, n: int) -> Seq<Token>
    decreases n,
{
    if n <= 0 {
        Seq::empty()
    } else {
        symbols_upto(lines, n - 1) + line_symbols(lines[n - 1])
    }
}

/// Every one of the first `n` lines is valid.
pub open spec fn prefix_valid(lines: Seq<Seq<char>>, n: int) -> bool {
    forall|i: int| 0 <= i < n ==> line_valid(#[trigger] lines[i])
}

/// Every nonzero line among the first `n` has effective length `w`.
pub open spec fn prefix_consistent(lines: Seq<Seq<char>>, n: int, w: int) -> bool {
    forall|i: int|
        0 <= i < n && line_len(#[trigger] lines[i]) != 0 ==> line_len(lines[i]) == w
}

/// A construction error: the program text is malformed. Each variant carries
/// enough context to render a caret-style diagnostic.
#[derive(Debug)]
pub enum BuildError {
    /// A character that is no symbol, at `column` (0-based) of the 1-based
    /// `line_number`.
    InvalidSymbol { line: String, line_number: usize, column: usize, character: char },
    /// A nonzero line whose effective length differs from the previous
    /// nonzero line's.
    InconsistentLineLength {
        prev_line: String,
        prev_line_number: usize,
        prev_length: usize,
        line: String,
        line_number: usize,
        length: usize,
    },
}

/// The validated, addressable grid: the parsed program body in row-major
/// order, the per-column register array, and the register-pointer
/// coordinates `(x, y)`.
#[derive(Debug)]
pub struct Grid {
    /// One register per column, mutable throughout execution.
    pub data: Vec<u32>,
    /// Register-pointer column.
    pub x: usize,
    /// Register-pointer row.
    pub y: usize,
    /// Number of grid rows, fixed after construction.
    pub rows: usize,
    /// Number of grid columns, fixed after construction.
    pub columns: usize,
    /// The program body, `rows * columns` points in row-major order.
    pub tokens: Vec<Point>,
}

impl Grid {
    /// The program body as a sequence of symbols.
    pub open spec fn symbols(self) -> Seq<Token> {
        points_tokens(self.tokens@)
    }

    /// Structural well-formedness: the body fills the rectangle and there is
    /// exactly one register per column.
    pub open spec fn wf(self) -> bool {
        &&& self.tokens@.len() == self.rows * self.columns
        &&& self.data@.len() == self.columns
        &&& (self.rows == 0 <==> self.columns == 0)
    }

    /// The symbol addressed by `(x, y)` for `0 <= y < rows`: positions at or
    /// beyond the right edge read as `Null`.
    pub open spec fn symbol_at(self, x: int, y: int) -> Token {
        if x >= self.columns {
            Token::Null
        } else {
            self.symbols()[x + y * self.columns]
        }
    }
}

/// The operations of a program grid, stated over its abstract contents.
pub trait GridTrait: Sized {
    /// Number of rows.
    spec fn rows_of(&self) -> int;

    /// Number of columns.
    spec fn columns_of(&self) -> int;

    /// The stored symbols in row-major order.
    spec fn symbols_of(&self) -> Seq<Token>;

    /// The per-column registers.
    spec fn registers_of(&self) -> Seq<u32>;

    /// The register-pointer coordinates.
    spec fn pointer_of(&self) -> (int, int);

    /// Structural well-formedness.
    spec fn well_formed(&self) -> bool;

    /// An empty grid.
    fn new() -> (g: Self)
        ensures
            g.rows_of() == 0,
            g.columns_of() == 0,
            g.symbols_of() == Seq::<Token>::empty(),
            g.registers_of() == Seq::<u32>::empty(),
            g.pointer_of() == (0int, 0int),
            g.well_formed(),
    ;

    /// Fix the number of rows.
    fn set_rows(&mut self, rows: usize)
        ensures
            final(self).rows_of() == rows as int,
            final(self).columns_of() == old(self).columns_of(),
            final(self).symbols_of() == old(self).symbols_of(),
            final(self).registers_of() == old(self).registers_of(),
            final(self).pointer_of() == old(self).pointer_of(),
    ;

    /// Fix the number of columns and allocate one zeroed register per column.
    fn set_columns(&mut self, columns: usize)
        ensures
            final(self).columns_of() == columns as int,
            final(self).registers_of() == Seq::new(columns as nat, |i: int| 0u32),
            final(self).rows_of() == old(self).rows_of(),
            final(self).symbols_of() == old(self).symbols_of(),
            final(self).pointer_of() == old(self).pointer_of(),
    ;

    /// Append one point to the program body.
    fn push(&mut self, value: Point)
        ensures
            final(self).symbols_of() == old(self).symbols_of().push(value.token),
            final(self).rows_of() == old(self).rows_of(),
            final(self).columns_of() == old(self).columns_of(),
            final(self).registers_of() == old(self).registers_of(),
            final(self).pointer_of() == old(self).pointer_of(),
    ;

    /// Address a position: `None` exactly when `y` is below the grid;
    /// positions at or beyond the right edge read as `Null`.
    fn get(&self, x: usize, y: usize) -> (r: Option<Point>)
        requires
            self.well_formed(),
        ensures
            y >= self.rows_of() ==> r is None,
            y < self.rows_of() && x >= self.columns_of() ==> r == Some(
                Point { token: Token::Null },
            ),
            y < self.rows_of() && x < self.columns_of() ==> r == Some(
                Point { token: self.symbols_of()[x + y * self.columns_of()] },
            ),
    ;

    /// Write the register under the register pointer, if it addresses one.
    fn set_value(&mut self, value: u32)
        ensures
            final(self).registers_of() == if 0 <= old(self).pointer_of().0
                < old(self).registers_of().len() {
                old(self).registers_of().update(old(self).pointer_of().0, value)
            } else {
                old(self).registers_of()
            },
            final(self).rows_of() == old(self).rows_of(),
            final(self).columns_of() == old(self).columns_of(),
            final(self).symbols_of() == old(self).symbols_of(),
            final(self).pointer_of() == old(self).pointer_of(),
    ;

    /// Read the register under the register pointer, if it addresses one.
    fn get_value(&self) -> (r: Option<u32>)
        ensures
            r == if 0 <= self.pointer_of().0 < self.registers_of().len() {
                Some(self.registers_of()[self.pointer_of().0])
            } else {
                None::<u32>
            },
    ;
}

impl GridTrait for Grid {
    open spec fn rows_of(&self) -> int {
        self.rows as int
    }

    open spec fn columns_of(&self) -> int {
        self.columns as int
    }

    open spec fn symbols_of(&self) -> Seq<Token> {
        self.symbols()
    }

    open spec fn registers_of(&self) -> Seq<u32> {
        self.data@
    }

    open spec fn pointer_of(&self) -> (int, int) {
        (self.x as int, self.y as int)
    }

    open spec fn well_formed(&self) -> bool {
        self.wf()
    }

    fn new() -> (g: Self) {
        let g = Grid {
            data: Vec::new(),
            x: 0,
            y: 0,
            rows: 0,
            columns: 0,
            tokens: Vec::new(),
        };
        proof {
            assert(g.symbols() =~= Seq::<Token>::empty());
        }
        g
    }

    fn set_rows(&mut self, rows: usize) {
        self.rows = rows;
    }

    fn set_columns(&mut self, columns: usize) {
        self.columns = columns;
        let mut data: Vec<u32> = Vec::new();
        let mut k: usize = 0;
        while k < columns
            invariant
                k <= columns,
                data@ =~= Seq::new(k as nat, |i: int| 0u32),
            decreases columns - k,
        {
            data.push(0);
            k = k + 1;
            proof {
                assert(data@ =~= Seq::new(k as nat, |i: int| 0u32));
            }
        }
        self.data = data;
    }

    fn push(&mut self, value: Point) {
        self.tokens.push(value);
        proof {
            assert(self.symbols() =~= old(self).symbols().push(value.token));
        }
    }

    fn get(&self, x: usize, y: usize) -> (r: Option<Point>) {
        if y >= self.rows {
            return None;
        }
        if x >= self.columns {
            return Some(Point { token: Token::Null });
        }
        // materialize the body length so the index below is known to fit
        let stored: usize = self.tokens.len();
        proof {
            assert(x + y * self.columns < self.rows * self.columns) by (nonlinear_arith)
                requires
                    x < self.columns,
                    y < self.rows,
            ;
            assert(x + y * self.columns < stored);
        }
        let i: usize = x + y * self.columns;
        Some(self.tokens[i])
    }

    fn set_value(&mut self, value: u32) {
        if self.x < self.data.len() {
            self.data.set(self.x, value);
        }
    }

    fn get_value(&self) -> (r: Option<u32>) {
        if self.x < self.data.len() {
            Some(self.data[self.x])
        } else {
            None
        }
    }
}

/// What [`Grid::build`] guarantees of its result, over the views `l` of the
/// given lines: an accepted grid holds exactly the effective symbols of the
/// valid, equal-length nonzero lines, with zeroed registers and cursors at
/// the origin; each rejection names the offending place.
pub open spec fn build_post(l: Seq<Seq<char>>, r: Result<Grid, BuildError>) -> bool {
    match r {
        Ok(g) => {
            &&& prefix_valid(l, l.len() as int)
            &&& prefix_consistent(l, l.len() as int, g.columns as int)
            &&& g.rows as int == nonzero_rows_upto(l, l.len() as int)
            &&& g.symbols() == symbols_upto(l, l.len() as int)
            &&& g.wf()
            &&& g.x == 0
            &&& g.y == 0
            &&& g.data@ == Seq::new(g.columns as nat, |i: int| 0u32)
        },
        Err(BuildError::InvalidSymbol { line, line_number, column, character }) => {
            &&& 1 <= line_number <= l.len()
            &&& prefix_valid(l, line_number as int - 1)
            &&& (exists|w: int| #[trigger] prefix_consistent(l, line_number as int - 1, w))
            &&& scan_line(l[line_number as int - 1]) == (ScanLine::Invalid {
                at: column as int,
                character,
            })
            &&& line@ == l[line_number as int - 1]
        },
        Err(
            BuildError::InconsistentLineLength {
                prev_line,
                prev_line_number,
                prev_length,
                line,
                line_number,
                length,
            },
        ) => {
            &&& 1 <= prev_line_number < line_number <= l.len()
            &&& prefix_valid(l, line_number as int)
            &&& prefix_consistent(l, line_number as int - 1, prev_length as int)
            &&& line_len(l[prev_line_number as int - 1]) == prev_length
            &&& prev_length != 0
            &&& (forall|i: int|
                prev_line_number <= i < line_number as int - 1 ==> line_len(#[trigger] l[i]) == 0)
            &&& line_len(l[line_number as int - 1]) == length
            &&& length != 0
            &&& length != prev_length
            &&& prev_line@ == l[prev_line_number as int - 1]
            &&& line@ == l[line_number as int - 1]
        },
    }
}

impl Grid {
    /// Build a validated grid from raw text lines.
    ///
    /// Per line, characters are scanned left to right: a comment character
    /// truncates the rest of the line, blanks are elided, any other valid
    /// symbol is stored, and an invalid character aborts the whole build.
    /// After a line is scanned, a nonzero effective length that differs from
    /// the previous nonzero line's aborts the build. Lines of zero effective
    /// length occupy no row, so `rows` counts only the nonzero lines and
    /// `columns` is their shared effective length; an input with no nonzero
    /// lines yields the empty, immediately-terminating grid.
    #[verifier::loop_isolation(false)]
    pub fn build(lines: &Vec<String>) -> (r: Result<Grid, BuildError>)
        ensures
            build_post(views_of(lines@), r),
    {
        let ghost l: Seq<Seq<char>> = views_of(lines@);
        let mut tokens: Vec<Point> = Vec::new();
        let mut rows: usize = 0;
        // The shared effective length of the nonzero lines seen so far;
        // zero while none has been seen.
        let mut width: usize = 0;
        // The 1-based number of the last nonzero line seen; zero while none.
        let mut prev_nz: usize = 0;
        let mut n: usize = 0;
        while n < lines.len()
            invariant
                n <= lines.len(),
                rows <= n,
                prefix_valid(l, n as int),
                prefix_consistent(l, n as int, width as int),
                rows as int == nonzero_rows_upto(l, n as int),
                points_tokens(tokens@) == symbols_upto(l, n as int),
                tokens@.len() == rows * width,
                width == 0 <==> rows == 0,
                width != 0 ==> {
                    &&& 1 <= prev_nz <= n
                    &&& line_len(l[prev_nz as int - 1]) == width
                    &&& forall|i: int| prev_nz <= i < n ==> line_len(#[trigger] l[i]) == 0
                },
                width == 0 ==> forall|i: int| 0 <= i < n ==> line_len(#[trigger] l[i]) == 0,
            decreases lines.len() - n,
        {
            let line: &String = &lines[n];
            let s: &str = line.as_str();
            let len: usize = s.unicode_len();
            let ghost ls: Seq<char> = l[n as int];
            let line_number: usize = n + 1;
            let mut j: usize = 0;
            let mut count: usize = 0;
            let ghost mut seg: Seq<Token> = Seq::empty();
            proof {
                assert(ls == s@);
                assert(symbols_upto(l, n as int) + seg =~= symbols_upto(l, n as int));
            }
            while j < len
                invariant
                    j <= len,
                    count <= j,
                    count as int == seg.len(),
                    points_tokens(tokens@) == symbols_upto(l, n as int) + seg,
                    tokens@.len() == rows * width + seg.len(),
                    match scan_line_from(ls, j as int) {
                        ScanLine::Invalid { at, character } => scan_line(ls) == (ScanLine::Invalid {
                            at,
                            character,
                        }),
                        ScanLine::Symbols { symbols } => scan_line(ls) == (ScanLine::Symbols {
                            symbols: seg + symbols,
                        }),
                    },
                decreases len - j,
            {
                let c: char = s.get_char(j);
                match Token::from_char(c) {
                    Err(_) => {
                        return Err(BuildError::InvalidSymbol {
                            line: line.clone(),
                            line_number,
                            column: j,
                            character: c,
                        });
                    },
                    Ok(t) => {
                        if matches!(t, Token::BlankSpace) {
                            j = j + 1;
                        } else if matches!(t, Token::Comment) {
                            proof {
                                assert(seg + Seq::<Token>::empty() =~= seg);
                            }
                            j = len;
                        } else {
                            let ghost toks0 = tokens@;
                            tokens.push(Point { token: t });
                            proof {
                                let old_seg = seg;
                                seg = seg.push(t);
                                lemma_points_tokens_push(toks0, Point { token: t });
                                assert((symbols_upto(l, n as int) + old_seg).push(t) =~= symbols_upto(
                                    l,
                                    n as int,
                                ) + seg);
                                match scan_line_from(ls, j + 1) {
                                    ScanLine::Invalid { .. } => {},
                                    ScanLine::Symbols { symbols } => {
                                        assert(old_seg + (seq![t] + symbols) =~= seg + symbols);
                                    },
                                }
                            }
                            count = count + 1;
                            j = j + 1;
                        }
                    },
                }
            }
            proof {
                assert(scan_line_from(ls, len as int) == (ScanLine::Symbols {
                    symbols: Seq::<Token>::empty(),
                }));
                assert(seg + Seq::<Token>::empty() =~= seg);
                assert(scan_line(ls) == (ScanLine::Symbols { symbols: seg }));
                assert(line_symbols(ls) == seg);
                assert(line_len(ls) == count as int);
            }
            if count != 0 && width != 0 && count != width {
                return Err(BuildError::InconsistentLineLength {
                    prev_line: lines[prev_nz - 1].clone(),
                    prev_line_number: prev_nz,
                    prev_length: width,
                    line: line.clone(),
                    line_number,
                    length: count,
                });
            }
            if count != 0 {
                if width == 0 {
                    width = count;
                }
                prev_nz = line_number;
                proof {
                    assert(tokens@.len() == rows * width + width) by (nonlinear_arith)
                        requires
                            tokens@.len() == rows * width + seg.len(),
                            seg.len() == width as int,
                    ;
                    assert((rows + 1) * width == rows * width + width) by (nonlinear_arith);
                }
                rows = rows + 1;
            }
            n = n + 1;
        }
        let mut data: Vec<u32> = Vec::new();
        let mut k: usize = 0;
        while k < width
            invariant
                k <= width,
                data@ =~= Seq::new(k as nat, |i: int| 0u32),
            decreases width - k,
        {
            data.push(0);
            k = k + 1;
            proof {
                assert(data@ =~= Seq::new(k as nat, |i: int| 0u32));
            }
        }
        Ok(Grid { data, x: 0, y: 0, rows, columns: width, tokens })
    }
}

impl Grid {
    /// Decide [`Grid::wf`] at run time, so that a caller holding a grid of
    /// unknown provenance can test it before executing.
    pub fn is_well_formed(&self) -> (r: bool)
        ensures
            r == self.wf(),
    {
        let stored: usize = self.tokens.len();
        match self.rows.checked_mul(self.columns) {
            None => false,
            Some(total) => stored == total && self.data.len() == self.columns && ((self.rows == 0)
                == (self.columns == 0)),
        }
    }
}

/// A program whose lines are all valid but which holds two nonzero lines of
/// differing effective lengths always fails construction, with a
/// length-mismatch diagnostic whose two 1-based line numbers name nonzero
/// lines of differing effective lengths.
pub proof fn lemma_mismatched_lines_rejected(
    l: Seq<Seq<char>>,
    r: Result<Grid, BuildError>,
    i: int,
    j: int,
)
    requires
        build_post(l, r),
        prefix_valid(l, l.len() as int),
        0 <= i < l.len(),
        0 <= j < l.len(),
        line_len(l[i]) != 0,
        line_len(l[j]) != 0,
        line_len(l[i]) != line_len(l[j]),
    ensures
        r matches Err(BuildError::InconsistentLineLength {
            prev_line_number,
            prev_length,
            line_number,
            length,
            ..
        }) && {
            &&& 1 <= prev_line_number < line_number <= l.len()
            &&& line_len(l[prev_line_number as int - 1]) == prev_length
            &&& line_len(l[line_number as int - 1]) == length
            &&& prev_length != length
            &&& prev_length != 0
            &&& length != 0
        },
{
    match r {
        Ok(g) => {
            assert(line_len(l[i]) == g.columns as int);
            assert(line_len(l[j]) == g.columns as int);
        },
        Err(BuildError::InvalidSymbol { line_number, .. }) => {
            assert(line_valid(l[line_number as int - 1]));
        },
        Err(BuildError::InconsistentLineLength { .. }) => {},
    }
}

/// A program with an invalid character in the scanned region of a line,
/// before which every line is valid and the nonzero lines agree in
/// effective length, always fails construction with a diagnostic naming
/// that exact character, its column, and its 1-based line number.
pub proof fn lemma_invalid_character_rejected(l: Seq<Seq<char>>, r: Result<Grid, BuildError>, k: int)
    requires
        build_post(l, r),
        0 <= k < l.len(),
        !line_valid(l[k]),
        prefix_valid(l, k),
        exists|w: int| #[trigger] prefix_consistent(l, k, w),
    ensures
        r matches Err(BuildError::InvalidSymbol { line_number, column, character, .. }) && {
            &&& line_number as int == k + 1
            &&& scan_line(l[k]) == (ScanLine::Invalid { at: column as int, character })
        },
{
    match r {
        Ok(g) => {
            assert(line_valid(l[k]));
        },
        Err(BuildError::InvalidSymbol { line_number, .. }) => {
            if line_number as int - 1 < k {
                assert(line_valid(l[line_number as int - 1]));
            }
            if k < line_number as int - 1 {
                assert(line_valid(l[k]));
            }
        },
        Err(BuildError::InconsistentLineLength { prev_line_number, line_number, .. }) => {
            if line_number as int <= k {
                let w = choose|w: int| prefix_consistent(l, k, w);
                assert(line_len(l[prev_line_number as int - 1]) == w);
                assert(line_len(l[line_number as int - 1]) == w);
            } else {
                assert(line_valid(l[k]));
            }
        },
    }
}

} // verus!
