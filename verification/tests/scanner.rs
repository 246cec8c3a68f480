use utemplate::bytes::is_ascii_whitespace;
use utemplate::instruction::{Instruction, TemplateError};
use utemplate::paren::ParenKind::{Brace, Bracket, Paren};
use utemplate::paren::{bracket_under_braces, brace_counts_as_text, ParenKind};
use utemplate::state::State;

#[test]
fn whitespace_is_the_five_ascii_bytes() {
    for b in 0u8..=255 {
        let expected = b == b' ' || b == b'\t' || b == b'\n' || b == 0x0c || b == b'\r';
        assert_eq!(is_ascii_whitespace(b), expected, "byte {}", b);
        assert_eq!(is_ascii_whitespace(b), b.is_ascii_whitespace(), "byte {}", b);
    }
}

#[test]
fn brace_is_text_only_with_one_delimiter_open() {
    assert!(brace_counts_as_text(&vec![Bracket], true));
    assert!(brace_counts_as_text(&vec![Brace], true));
    assert!(brace_counts_as_text(&vec![Paren], true));
    assert!(!brace_counts_as_text(&vec![Bracket], false));
    assert!(!brace_counts_as_text(&vec![], true));
    assert!(!brace_counts_as_text(&vec![Bracket, Brace], true));
    assert!(!brace_counts_as_text(&vec![Bracket, Brace], false));
}

#[test]
fn bracket_under_braces_needs_a_bracket_and_only_braces() {
    assert!(bracket_under_braces(&vec![Bracket, Brace]));
    assert!(bracket_under_braces(&vec![Bracket, Brace, Brace]));
    assert!(bracket_under_braces(&vec![Bracket, Brace, Brace, Brace]));
    assert!(!bracket_under_braces(&vec![]));
    assert!(!bracket_under_braces(&vec![Bracket]));
    assert!(!bracket_under_braces(&vec![Brace]));
    assert!(!bracket_under_braces(&vec![Brace, Brace]));
    assert!(!bracket_under_braces(&vec![Paren, Brace]));
    assert!(!bracket_under_braces(&vec![Bracket, Paren]));
    assert!(!bracket_under_braces(&vec![Bracket, Bracket]));
    assert!(!bracket_under_braces(&vec![Bracket, Brace, Paren]));
    assert!(!bracket_under_braces(&vec![Bracket, Paren, Brace]));
    assert!(!bracket_under_braces(&vec![Bracket, Brace, Bracket, Brace]));
}

#[test]
fn new_state_has_read_nothing() {
    let state = State::new(b"abc");
    assert_eq!(state.position(), 0);
    assert_eq!(state.pending_literal(), b"");
    assert!(!state.trims_next_literal());
    assert_eq!(state.open_delimiters(), &[]);
    assert_eq!(state.emitted(), &[]);
}

#[test]
fn scan_literal_stops_after_the_ender() {
    let mut state = State::new(b"abc\" rest");
    assert_eq!(state.scan_literal(b'"'), Ok(()));
    assert_eq!(state.position(), 4);
}

#[test]
fn scan_literal_passes_over_the_other_quote() {
    let mut state = State::new(b"a\"b' rest");
    assert_eq!(state.scan_literal(b'\''), Ok(()));
    assert_eq!(state.position(), 4);
}

#[test]
fn scan_literal_passes_over_an_escaped_ender() {
    let mut state = State::new(b"a\\\"b\" rest");
    assert_eq!(state.scan_literal(b'"'), Ok(()));
    assert_eq!(state.position(), 5);
}

#[test]
fn scan_literal_passes_over_an_escaped_backslash() {
    let mut state = State::new(b"a\\\\\" rest");
    assert_eq!(state.scan_literal(b'"'), Ok(()));
    assert_eq!(state.position(), 4);
}

#[test]
fn scan_literal_fails_at_the_end_of_the_template() {
    let mut state = State::new(b"abc");
    assert_eq!(state.scan_literal(b'"'), Err(TemplateError::UnterminatedLiteral));
    let mut state = State::new(b"");
    assert_eq!(state.scan_literal(b'"'), Err(TemplateError::UnterminatedLiteral));
    let mut state = State::new(b"abc\\");
    assert_eq!(state.scan_literal(b'"'), Err(TemplateError::UnterminatedLiteral));
    let mut state = State::new(b"abc\\\"");
    assert_eq!(state.scan_literal(b'"'), Err(TemplateError::UnterminatedLiteral));
}

#[test]
fn scan_parens_returns_the_text_of_the_escape() {
    let mut state = State::new(b"x + y} tail");
    assert_eq!(state.scan_parens(ParenKind::Brace, false), Ok(&b"x + y"[..]));
    assert_eq!(state.position(), 6);
    assert_eq!(state.open_delimiters(), &[]);
    assert_eq!(state.emitted(), &[]);
    assert_eq!(state.pending_literal(), b"");
}

#[test]
fn scan_parens_of_an_empty_escape() {
    let mut state = State::new(b"]");
    assert_eq!(state.scan_parens(ParenKind::Bracket, true), Ok(&b""[..]));
    assert_eq!(state.position(), 1);
}

#[test]
fn scan_parens_closes_round_parens() {
    let mut state = State::new(b"a[0]) tail");
    assert_eq!(state.scan_parens(ParenKind::Paren, false), Ok(&b"a[0]"[..]));
    assert_eq!(state.position(), 5);
}

#[test]
fn scan_parens_lets_a_brace_through_only_where_allowed() {
    let mut state = State::new(b"}]");
    assert_eq!(state.scan_parens(ParenKind::Bracket, true), Ok(&b"}"[..]));
    let mut state = State::new(b"}]");
    assert_eq!(
        state.scan_parens(ParenKind::Bracket, false),
        Err(TemplateError::UnbalancedParen)
    );
}

#[test]
fn scan_parens_ends_over_open_braces_only_where_allowed() {
    let mut state = State::new(b"if a {{]");
    assert_eq!(state.scan_parens(ParenKind::Bracket, true), Ok(&b"if a {{"[..]));
    assert_eq!(state.open_delimiters(), &[]);
    let mut state = State::new(b"if a {{]");
    assert_eq!(
        state.scan_parens(ParenKind::Bracket, false),
        Err(TemplateError::UnbalancedParen)
    );
}

#[test]
fn scan_parens_does_not_end_a_brace_escape_over_open_braces() {
    let mut state = State::new(b"{]");
    assert_eq!(
        state.scan_parens(ParenKind::Brace, true),
        Err(TemplateError::UnbalancedParen)
    );
}

#[test]
fn scan_parens_with_allowance_takes_a_brace_as_text_in_a_brace_escape() {
    let mut state = State::new(b"}");
    assert_eq!(
        state.scan_parens(ParenKind::Brace, true),
        Err(TemplateError::UnterminatedParen)
    );
    let mut state = State::new(b"}");
    assert_eq!(state.scan_parens(ParenKind::Brace, false), Ok(&b""[..]));
}

#[test]
fn scan_parens_forgets_what_was_open_before() {
    let mut state = State::new(b"(]x)");
    assert_eq!(
        state.scan_parens(ParenKind::Paren, false),
        Err(TemplateError::UnbalancedParen)
    );
    assert_eq!(state.scan_parens(ParenKind::Paren, false), Ok(&b"x"[..]));
    assert_eq!(state.open_delimiters(), &[]);
}

#[test]
fn scan_parens_fails_at_the_end_of_the_template() {
    let mut state = State::new(b"");
    assert_eq!(
        state.scan_parens(ParenKind::Brace, false),
        Err(TemplateError::UnterminatedParen)
    );
    let mut state = State::new(b"f(x)");
    assert_eq!(
        state.scan_parens(ParenKind::Brace, false),
        Err(TemplateError::UnterminatedParen)
    );
}

#[test]
fn scan_parens_reports_a_quoted_run_without_end() {
    let mut state = State::new(b"f(\"x)}");
    assert_eq!(
        state.scan_parens(ParenKind::Brace, false),
        Err(TemplateError::UnterminatedLiteral)
    );
}

#[test]
fn apply_trimming_takes_the_markers_off() {
    let mut state = State::new(b"");
    assert_eq!(state.apply_trimming(b"-x-"), b"x");
    assert!(state.trims_next_literal());
    assert_eq!(state.apply_trimming(b"-x"), b"x");
    assert!(!state.trims_next_literal());
    assert_eq!(state.apply_trimming(b"x-"), b"x");
    assert!(state.trims_next_literal());
    assert_eq!(state.apply_trimming(b"x"), b"x");
    assert!(!state.trims_next_literal());
}

#[test]
fn apply_trimming_of_short_texts() {
    let mut state = State::new(b"");
    assert_eq!(state.apply_trimming(b""), b"");
    assert!(!state.trims_next_literal());
    assert_eq!(state.apply_trimming(b"-"), b"");
    assert!(!state.trims_next_literal());
    assert_eq!(state.apply_trimming(b"--"), b"");
    assert!(state.trims_next_literal());
    assert_eq!(state.apply_trimming(b"---"), b"-");
    assert!(state.trims_next_literal());
}

#[test]
fn apply_trimming_leaves_inner_markers() {
    let mut state = State::new(b"");
    assert_eq!(state.apply_trimming(b"a-b"), b"a-b");
    assert!(!state.trims_next_literal());
    assert_eq!(state.apply_trimming(b" -x- "), b" -x- ");
    assert!(!state.trims_next_literal());
}

#[test]
fn apply_trimming_trims_the_pending_literal_on_a_leading_marker() {
    let mut state = State::new(b"ab \n");
    for _ in 0..4 {
        assert_eq!(state.step(), Ok(()));
    }
    assert_eq!(state.pending_literal(), b"ab \n");
    assert_eq!(state.apply_trimming(b"x-"), b"x");
    assert_eq!(state.pending_literal(), b"ab \n");
    assert_eq!(state.apply_trimming(b"-x"), b"x");
    assert_eq!(state.pending_literal(), b"ab");
}

#[test]
fn trim_literal_end_takes_whitespace_off_the_end_only() {
    let mut state = State::new(b" \ta b\t \n\r\x0c");
    for _ in 0..10 {
        assert_eq!(state.step(), Ok(()));
    }
    assert_eq!(state.pending_literal(), b" \ta b\t \n\r\x0c");
    state.trim_literal_end();
    assert_eq!(state.pending_literal(), b" \ta b");
    state.trim_literal_end();
    assert_eq!(state.pending_literal(), b" \ta b");
    assert_eq!(state.position(), 10);
    assert_eq!(state.emitted(), &[]);
}

#[test]
fn trim_literal_end_of_whitespace_leaves_nothing() {
    let mut state = State::new(b" \n ");
    for _ in 0..3 {
        assert_eq!(state.step(), Ok(()));
    }
    state.trim_literal_end();
    assert_eq!(state.pending_literal(), b"");
    state.trim_literal_end();
    assert_eq!(state.pending_literal(), b"");
}

#[test]
fn flush_literal_emits_the_pending_text_once() {
    let mut state = State::new(b"ab");
    state.flush_literal();
    assert_eq!(state.emitted(), &[]);
    assert_eq!(state.step(), Ok(()));
    assert_eq!(state.step(), Ok(()));
    state.flush_literal();
    assert_eq!(state.emitted(), &[Instruction::EmitLiteral(b"ab".to_vec())]);
    assert_eq!(state.pending_literal(), b"");
    state.flush_literal();
    assert_eq!(state.emitted(), &[Instruction::EmitLiteral(b"ab".to_vec())]);
}

#[test]
fn step_reads_a_doubled_opener_as_one_byte() {
    let mut state = State::new(b"[[{{");
    assert_eq!(state.step(), Ok(()));
    assert_eq!(state.position(), 2);
    assert_eq!(state.pending_literal(), b"[");
    assert_eq!(state.step(), Ok(()));
    assert_eq!(state.position(), 4);
    assert_eq!(state.pending_literal(), b"[{");
    assert_eq!(state.emitted(), &[]);
}

#[test]
fn step_reads_a_whole_escape() {
    let mut state = State::new(b"a{x-} b");
    assert_eq!(state.step(), Ok(()));
    assert_eq!(state.step(), Ok(()));
    assert_eq!(state.position(), 5);
    assert_eq!(state.pending_literal(), b"");
    assert!(state.trims_next_literal());
    assert_eq!(state.open_delimiters(), &[]);
    assert_eq!(
        state.emitted(),
        &[
            Instruction::EmitLiteral(b"a".to_vec()),
            Instruction::EmitExpression(b"x".to_vec()),
        ]
    );
    assert_eq!(state.step(), Ok(()));
    assert_eq!(state.pending_literal(), b"");
    assert!(state.trims_next_literal());
    assert_eq!(state.step(), Ok(()));
    assert_eq!(state.pending_literal(), b"b");
    assert!(!state.trims_next_literal());
}

#[test]
fn step_at_the_end_does_nothing() {
    let mut state = State::new(b"a");
    assert_eq!(state.step(), Ok(()));
    assert_eq!(state.step(), Ok(()));
    assert_eq!(state.position(), 1);
    assert_eq!(state.pending_literal(), b"a");
}

#[test]
fn failed_escape_leaves_the_output_as_it_was() {
    let mut state = State::new(b"a{x}b{(]");
    for _ in 0..3 {
        assert_eq!(state.step(), Ok(()));
    }
    assert_eq!(state.step(), Err(TemplateError::UnbalancedParen));
    assert_eq!(state.pending_literal(), b"b");
    assert_eq!(
        state.emitted(),
        &[
            Instruction::EmitLiteral(b"a".to_vec()),
            Instruction::EmitExpression(b"x".to_vec()),
        ]
    );
}

#[test]
fn parse_stmts_reads_from_after_the_bracket() {
    let mut state = State::new(b"for y in ys {-] rest");
    assert_eq!(state.parse_stmts(), Ok(()));
    assert_eq!(state.position(), 15);
    assert!(state.trims_next_literal());
    assert_eq!(state.emitted(), &[Instruction::EmitRawCode(b"for y in ys {".to_vec())]);
}

#[test]
fn parse_stmts_of_an_empty_escape_flushes_and_emits_empty_code() {
    let mut state = State::new(b"a[]b");
    assert_eq!(state.step(), Ok(()));
    assert_eq!(state.pending_literal(), b"a");
    assert_eq!(state.step(), Ok(()));
    assert_eq!(state.position(), 3);
    assert_eq!(state.pending_literal(), b"");
    assert_eq!(
        state.emitted(),
        &[
            Instruction::EmitLiteral(b"a".to_vec()),
            Instruction::EmitRawCode(b"".to_vec()),
        ]
    );
    let mut state = State::new(b"]");
    assert_eq!(state.parse_stmts(), Ok(()));
    assert_eq!(state.position(), 1);
    assert_eq!(state.emitted(), &[Instruction::EmitRawCode(b"".to_vec())]);
}

#[test]
fn cursor_only_moves_forward_when_a_scan_fails() {
    let mut state = State::new(b"ab{(]");
    for _ in 0..2 {
        assert_eq!(state.step(), Ok(()));
    }
    assert_eq!(state.position(), 2);
    assert_eq!(state.step(), Err(TemplateError::UnbalancedParen));
    assert!(2 <= state.position() && state.position() <= 5);
    let before = state.position();
    assert_eq!(state.scan_parens(ParenKind::Brace, false), Err(TemplateError::UnterminatedParen));
    assert!(before <= state.position() && state.position() <= 5);
    let before = state.position();
    assert_eq!(state.scan_literal(b'"'), Err(TemplateError::UnterminatedLiteral));
    assert!(before <= state.position() && state.position() <= 5);
    let before = state.position();
    assert_eq!(state.parse_stmts(), Err(TemplateError::UnterminatedParen));
    assert!(before <= state.position() && state.position() <= 5);
    let before = state.position();
    assert_eq!(state.parse_expr(), Err(TemplateError::UnterminatedParen));
    assert!(before <= state.position() && state.position() <= 5);
}

#[test]
fn cursor_stands_at_the_end_after_an_unterminated_scan() {
    let mut state = State::new(b"f(x");
    assert_eq!(state.scan_parens(ParenKind::Brace, false), Err(TemplateError::UnterminatedParen));
    assert_eq!(state.position(), 3);
    let mut state = State::new(b"abc\\");
    assert_eq!(state.scan_literal(b'"'), Err(TemplateError::UnterminatedLiteral));
    assert_eq!(state.position(), 4);
}

#[test]
fn parse_stmts_fails_as_the_scan_does() {
    let mut state = State::new(b"f(]");
    assert_eq!(state.parse_stmts(), Err(TemplateError::UnbalancedParen));
    assert_eq!(state.emitted(), &[]);
    let mut state = State::new(b"f()");
    assert_eq!(state.parse_stmts(), Err(TemplateError::UnterminatedParen));
    let mut state = State::new(b"'");
    assert_eq!(state.parse_stmts(), Err(TemplateError::UnterminatedLiteral));
}

#[test]
fn parse_expr_reads_from_after_the_brace() {
    let mut state = State::new(b"-a.b(c)} rest");
    assert_eq!(state.parse_expr(), Ok(()));
    assert_eq!(state.position(), 8);
    assert!(!state.trims_next_literal());
    assert_eq!(state.emitted(), &[Instruction::EmitExpression(b"a.b(c)".to_vec())]);
}

#[test]
fn parse_expr_fails_as_the_scan_does() {
    let mut state = State::new(b"a]");
    assert_eq!(state.parse_expr(), Err(TemplateError::UnbalancedParen));
    let mut state = State::new(b"a");
    assert_eq!(state.parse_expr(), Err(TemplateError::UnterminatedParen));
    let mut state = State::new(b"\"a}");
    assert_eq!(state.parse_expr(), Err(TemplateError::UnterminatedLiteral));
}

#[test]
fn parse_root_goes_on_from_where_the_scan_stands() {
    let mut state = State::new(b"ab{x}c");
    assert_eq!(state.step(), Ok(()));
    assert_eq!(
        state.parse_root(),
        Ok(vec![
            Instruction::EmitLiteral(b"ab".to_vec()),
            Instruction::EmitExpression(b"x".to_vec()),
            Instruction::EmitLiteral(b"c".to_vec()),
        ])
    );
}
