use vstd::prelude::*;
use crate::knapsack::KnapsackError;

verus! {

// A problem instance is written down as lines of decimal numerals
// separated by blanks: a capacity line followed by one line per item.
// This module turns the raw bytes into rows of numbers; the shape of the
// rows is the knapsack module's concern.

/// An ASCII decimal digit.
pub open spec fn is_digit(b: u8) -> bool {
    48 <= b && b <= 57
}

/// A blank that separates numerals within a line.
pub open spec fn is_separator(b: u8) -> bool {
    b == 32 || b == 9 || b == 13
}

/// The byte that ends a line.
pub open spec fn is_line_break(b: u8) -> bool {
    b == 10
}

/// A byte that may appear in a well-formed description.
pub open spec fn is_source_byte(b: u8) -> bool {
    is_digit(b) || is_separator(b) || is_line_break(b)
}

/// Every byte of the description is a digit, a blank or a line break.
pub open spec fn source_bytes_ok(s: Seq<u8>) -> bool {
    forall|i: int| 0 <= i < s.len() ==> is_source_byte(#[trigger] s[i])
}

/// The number an ASCII digit stands for.
pub open spec fn digit_value(b: u8) -> nat {
    (b - 48) as nat
}

/// The state of the tokenizer after reading a prefix of the description:
/// the rows already finished, the numbers of the line being read, and the
/// numeral being accumulated, if one is open.
pub struct TokenState {
    pub rows: Seq<Seq<nat>>,
    pub fields: Seq<nat>,
    pub numeral: Option<nat>,
}

/// Closes an open numeral into the current line's fields.
pub open spec fn close_numeral(st: TokenState) -> TokenState {
    match st.numeral {
        Some(v) => TokenState { rows: st.rows, fields: st.fields.push(v), numeral: None },
        None => st,
    }
}

/// Closes the current line: a line with at least one number becomes a row;
/// a blank line leaves no trace.
pub open spec fn close_row(st: TokenState) -> TokenState {
    if st.fields.len() > 0 {
        TokenState { rows: st.rows.push(st.fields), fields: Seq::empty(), numeral: None }
    } else {
        st
    }
}

/// How one byte advances the tokenizer.
pub open spec fn token_step(st: TokenState, b: u8) -> TokenState {
    if is_digit(b) {
        let sofar: nat = match st.numeral {
            Some(v) => v,
            None => 0,
        };
        TokenState {
            rows: st.rows,
            fields: st.fields,
            numeral: Some(sofar * 10 + digit_value(b)),
        }
    } else if is_line_break(b) {
        close_row(close_numeral(st))
    } else {
        close_numeral(st)
    }
}

/// The tokenizer before it has read anything.
pub open spec fn initial_state() -> TokenState {
    TokenState { rows: Seq::empty(), fields: Seq::empty(), numeral: None }
}

/// The tokenizer's state after the first `n` bytes of the description.
pub open spec fn tokenize_upto(s: Seq<u8>, n: int) -> TokenState
    decreases n,
{
    if n <= 0 {
        initial_state()
    } else {
        token_step(tokenize_upto(s, n - 1), s[n - 1])
    }
}

/// The rows of numbers a description denotes: every byte read, the last
/// numeral and the last line closed.
pub open spec fn token_rows(s: Seq<u8>) -> Seq<Seq<nat>> {
    close_row(close_numeral(tokenize_upto(s, s.len() as int))).rows
}

/// Some finished number in the rows does not fit in a `u64`.
pub open spec fn rows_have_big(rows: Seq<Seq<nat>>) -> bool {
    exists|i: int, j: int|
        0 <= i < rows.len() && 0 <= j < rows[i].len() && #[trigger] rows[i][j] > u64::MAX
}

/// Some number anywhere in the state does not fit in a `u64`.
pub open spec fn state_has_big(st: TokenState) -> bool {
    ||| rows_have_big(st.rows)
    ||| exists|j: int| 0 <= j < st.fields.len() && #[trigger] st.fields[j] > u64::MAX
    ||| (st.numeral matches Some(v) && v > u64::MAX)
}

proof fn lemma_step_preserves_big(st: TokenState, b: u8)
    requires
        state_has_big(st),
    ensures
        state_has_big(token_step(st, b)),
{
    let st2 = token_step(st, b);
    if is_digit(b) {
        if rows_have_big(st.rows) {
            let (i, j) = choose|i: int, j: int|
                0 <= i < st.rows.len() && 0 <= j < st.rows[i].len() && #[trigger] st.rows[i][j]
                    > u64::MAX;
            assert(st2.rows[i][j] > u64::MAX);
        } else if exists|j: int| 0 <= j < st.fields.len() && #[trigger] st.fields[j] > u64::MAX {
            let j = choose|j: int| 0 <= j < st.fields.len() && #[trigger] st.fields[j] > u64::MAX;
            assert(st2.fields[j] > u64::MAX);
        } else {
            match st.numeral {
                Some(v) => {
                    assert(v * 10 + digit_value(b) >= v) by {
                        assert(v * 10 == v + v * 9) by (nonlinear_arith);
                    }
                },
                None => {},
            }
        }
    } else {
        lemma_close_preserves_big(st);
    }
}

proof fn lemma_close_preserves_big(st: TokenState)
    requires
        state_has_big(st),
    ensures
        state_has_big(close_numeral(st)),
        state_has_big(close_row(close_numeral(st))),
{
    let st1 = close_numeral(st);
    if rows_have_big(st.rows) {
        assert(st1.rows == st.rows);
    } else if exists|j: int| 0 <= j < st.fields.len() && #[trigger] st.fields[j] > u64::MAX {
        let j = choose|j: int| 0 <= j < st.fields.len() && #[trigger] st.fields[j] > u64::MAX;
        assert(st1.fields[j] > u64::MAX);
    } else {
        match st.numeral {
            Some(v) => {
                assert(st1.fields[st1.fields.len() - 1] > u64::MAX);
            },
            None => {},
        }
    }
    assert(state_has_big(st1));
    let st2 = close_row(st1);
    if st1.fields.len() > 0 {
        if rows_have_big(st1.rows) {
            let (i, j) = choose|i: int, j: int|
                0 <= i < st1.rows.len() && 0 <= j < st1.rows[i].len() && #[trigger] st1.rows[i][j]
                    > u64::MAX;
            assert(st2.rows[i][j] > u64::MAX);
        } else if exists|j: int| 0 <= j < st1.fields.len() && #[trigger] st1.fields[j] > u64::MAX {
            let j = choose|j: int| 0 <= j < st1.fields.len() && #[trigger] st1.fields[j] > u64::MAX;
            assert(st2.rows[st2.rows.len() - 1][j] > u64::MAX);
        }
    }
}

proof fn lemma_big_persists(s: Seq<u8>, n: int)
    requires
        0 <= n <= s.len(),
        state_has_big(tokenize_upto(s, n)),
    ensures
        rows_have_big(token_rows(s)),
    decreases s.len() - n,
{
    if n == s.len() {
        lemma_close_preserves_big(tokenize_upto(s, n));
        let fin = close_row(close_numeral(tokenize_upto(s, n)));
        assert(fin.fields.len() == 0 && fin.numeral is None);
    } else {
        lemma_step_preserves_big(tokenize_upto(s, n), s[n]);
        assert(tokenize_upto(s, n + 1) == token_step(tokenize_upto(s, n), s[n]));
        lemma_big_persists(s, n + 1);
    }
}

/// The numbers of an exec row equal those of a spec row.
pub open spec fn row_matches(row_e: Seq<u64>, row: Seq<nat>) -> bool {
    row.len() == row_e.len() && forall|j: int| 0 <= j < row.len() ==> #[trigger] row[j] == row_e[j]
}

/// The numbers of the exec rows equal those of the spec rows.
pub open spec fn rows_match(rows_e: Seq<Vec<u64>>, rows: Seq<Seq<nat>>) -> bool {
    rows.len() == rows_e.len() && forall|i: int| 0 <= i < rows.len() ==> row_matches(
        rows_e[i]@,
        #[trigger] rows[i],
    )
}

/// Splits a description into its rows of numbers.
///
/// Fails with `InvalidByte` exactly when some byte is neither a digit, a
/// blank nor a line break, and otherwise with `NumberTooLarge` exactly
/// when some numeral exceeds `u64::MAX`.
pub fn tokenize(source: &Vec<u8>) -> (r: Result<Vec<Vec<u64>>, KnapsackError>)
    ensures
        match r {
            Ok(rows_e) => {
                &&& source_bytes_ok(source@)
                &&& !rows_have_big(token_rows(source@))
                &&& rows_match(rows_e@, token_rows(source@))
            },
            Err(e) => {
                &&& (e == KnapsackError::InvalidByte <==> !source_bytes_ok(source@))
                &&& e != KnapsackError::InvalidByte ==> e == KnapsackError::NumberTooLarge
                    && rows_have_big(token_rows(source@))
            },
        },
{
    let n: usize = source.len();
    let mut i: usize = 0;
    while i < n
        invariant
            n == source@.len(),
            0 <= i <= n,
            forall|k: int| 0 <= k < i ==> is_source_byte(#[trigger] source@[k]),
        decreases n - i,
    {
        let b: u8 = source[i];
        if !((48 <= b && b <= 57) || b == 32 || b == 9 || b == 13 || b == 10) {
            return Err(KnapsackError::InvalidByte);
        }
        i += 1;
    }
    assert(source_bytes_ok(source@));

    let mut rows_e: Vec<Vec<u64>> = Vec::new();
    let mut fields_e: Vec<u64> = Vec::new();
    let mut numeral_e: u64 = 0;
    let mut has_numeral: bool = false;
    let mut i: usize = 0;
    while i < n
        invariant
            n == source@.len(),
            0 <= i <= n,
            source_bytes_ok(source@),
            !state_has_big(tokenize_upto(source@, i as int)),
            rows_match(rows_e@, tokenize_upto(source@, i as int).rows),
            row_matches(fields_e@, tokenize_upto(source@, i as int).fields),
            match tokenize_upto(source@, i as int).numeral {
                Some(v) => has_numeral && numeral_e == v,
                None => !has_numeral,
            },
        decreases n - i,
    {
        let ghost st = tokenize_upto(source@, i as int);
        let ghost st_next = tokenize_upto(source@, i as int + 1);
        assert(st_next == token_step(st, source@[i as int]));
        let b: u8 = source[i];
        if 48 <= b && b <= 57 {
            let d: u8 = b - 48;
            let sofar: u64 = if has_numeral {
                numeral_e
            } else {
                0
            };
            if sofar > (u64::MAX - d as u64) / 10 {
                proof {
                    let v = sofar as nat * 10 + digit_value(b);
                    assert(v > u64::MAX) by {
                        vstd::arithmetic::div_mod::lemma_fundamental_div_mod(
                            u64::MAX - d,
                            10,
                        );
                    };
                    assert(state_has_big(st_next));
                    lemma_big_persists(source@, i as int + 1);
                }
                return Err(KnapsackError::NumberTooLarge);
            }
            proof {
                vstd::arithmetic::div_mod::lemma_fundamental_div_mod(u64::MAX - d, 10);
                assert(sofar * 10 + d <= u64::MAX);
            }
            numeral_e = sofar * 10 + d as u64;
            has_numeral = true;
        } else if b == 10 {
            if has_numeral {
                fields_e.push(numeral_e);
                has_numeral = false;
            }
            if fields_e.len() > 0 {
                rows_e.push(fields_e);
                fields_e = Vec::new();
            }
            proof {
                assert(rows_match(rows_e@, st_next.rows));
            }
        } else {
            if has_numeral {
                fields_e.push(numeral_e);
                has_numeral = false;
            }
        }
        i += 1;
    }
    if has_numeral {
        fields_e.push(numeral_e);
    }
    if fields_e.len() > 0 {
        rows_e.push(fields_e);
    }
    proof {
        let st = tokenize_upto(source@, n as int);
        let fin = close_row(close_numeral(st));
        assert(rows_match(rows_e@, fin.rows));
        assert(!rows_have_big(token_rows(source@)));
    }
    Ok(rows_e)
}

} // verus!
