use utemplate::instruction::TemplateError;
use utemplate::resolve::{resolve, template_impl, Invocation, Token};

fn s(text: &str) -> Token {
    Token::Str(text.to_string())
}

fn id(name: &str) -> Token {
    Token::Ident(name.to_string())
}

#[test]
fn bare_literal_declares_a_buffer_and_hands_it_back() {
    assert_eq!(
        resolve(&[s("t")]),
        Ok(Invocation {
            prefix: "let mut __utemplate_macro_dst = ::std::string::String::new();\n".to_string(),
            dst: "(&mut __utemplate_macro_dst)".to_string(),
            template: "t".to_string(),
            suffix: "__utemplate_macro_dst".to_string(),
        })
    );
}

#[test]
fn name_plus_eq_appends_to_the_buffer() {
    assert_eq!(
        resolve(&[id("out"), Token::Plus, Token::Eq, s("t")]),
        Ok(Invocation {
            prefix: String::new(),
            dst: "(&mut out)".to_string(),
            template: "t".to_string(),
            suffix: String::new(),
        })
    );
}

#[test]
fn star_name_plus_eq_appends_through_the_reference() {
    assert_eq!(
        resolve(&[Token::Star, id("out"), Token::Plus, Token::Eq, s("t")]),
        Ok(Invocation {
            prefix: String::new(),
            dst: "out".to_string(),
            template: "t".to_string(),
            suffix: String::new(),
        })
    );
}

#[test]
fn other_shapes_are_refused() {
    let bad = Err(TemplateError::BadInvocationShape);
    assert_eq!(resolve(&[]), bad);
    assert_eq!(resolve(&[id("out")]), bad);
    assert_eq!(resolve(&[Token::Other]), bad);
    assert_eq!(resolve(&[s("a"), s("b")]), bad);
    assert_eq!(resolve(&[id("out"), Token::Eq, s("t")]), bad);
    assert_eq!(resolve(&[id("out"), Token::Eq, Token::Plus, s("t")]), bad);
    assert_eq!(resolve(&[id("out"), Token::Plus, Token::Eq, id("t")]), bad);
    assert_eq!(resolve(&[s("out"), Token::Plus, Token::Eq, s("t")]), bad);
    assert_eq!(resolve(&[Token::Star, Token::Star, Token::Plus, Token::Eq, s("t")]), bad);
    assert_eq!(resolve(&[Token::Plus, id("out"), Token::Plus, Token::Eq, s("t")]), bad);
    assert_eq!(resolve(&[Token::Star, id("out"), Token::Plus, Token::Eq, Token::Other]), bad);
    assert_eq!(resolve(&[Token::Star, id("out"), Token::Plus, Token::Plus, s("t")]), bad);
    assert_eq!(
        resolve(&[Token::Star, Token::Star, id("out"), Token::Plus, Token::Eq, s("t")]),
        bad
    );
    assert_eq!(resolve(&[id("out"), Token::Plus, Token::Eq, s("t"), Token::Other]), bad);
}

#[test]
fn bare_literal_expands_to_a_block_that_yields_the_buffer() {
    assert_eq!(
        template_impl(&[s("a{x}")]),
        Ok([
            "{\n",
            "let mut __utemplate_macro_dst = ::std::string::String::new();\n",
            "(&mut __utemplate_macro_dst).push_str(\"a\");\n",
            "::utemplate::TDisplay::tdisplay_to(x, (&mut __utemplate_macro_dst));\n",
            "__utemplate_macro_dst}\n",
        ]
        .concat())
    );
}

#[test]
fn append_to_a_buffer_expands_to_a_block_of_statements() {
    assert_eq!(
        template_impl(&[id("dst"), Token::Plus, Token::Eq, s("{x}*[[[for y in &ys {]{y}, [}]]")]),
        Ok([
            "{\n",
            "::utemplate::TDisplay::tdisplay_to(x, (&mut dst));\n",
            "(&mut dst).push_str(\"*[\");\n",
            "for y in &ys {::utemplate::TDisplay::tdisplay_to(y, (&mut dst));\n",
            "(&mut dst).push_str(\", \");\n",
            "}(&mut dst).push_str(\"]\");\n",
            "}\n",
        ]
        .concat())
    );
}

#[test]
fn append_through_a_reference_names_the_reference() {
    assert_eq!(
        template_impl(&[Token::Star, id("dstp"), Token::Plus, Token::Eq, s("é{x}")]),
        Ok([
            "{\n",
            "dstp.push_str(\"é\");\n",
            "::utemplate::TDisplay::tdisplay_to(x, dstp);\n",
            "}\n",
        ]
        .concat())
    );
}

#[test]
fn empty_template_expands_to_an_empty_block() {
    assert_eq!(
        template_impl(&[id("dst"), Token::Plus, Token::Eq, s("")]),
        Ok("{\n}\n".to_string())
    );
}

#[test]
fn bad_shape_comes_before_the_template() {
    assert_eq!(
        template_impl(&[id("dst"), Token::Eq, s("{")]),
        Err(TemplateError::BadInvocationShape)
    );
}

#[test]
fn errors_of_the_template_come_through() {
    assert_eq!(template_impl(&[s("[for y in &ys {")]), Err(TemplateError::UnterminatedParen));
    assert_eq!(template_impl(&[s("{(]}")]), Err(TemplateError::UnbalancedParen));
    assert_eq!(template_impl(&[s("{\"}")]), Err(TemplateError::UnterminatedLiteral));
}

#[test]
fn every_error_has_its_words() {
    assert_eq!(TemplateError::UnterminatedLiteral.message(), "unterminated literal");
    assert_eq!(TemplateError::UnterminatedParen.message(), "unterminated paren");
    assert_eq!(TemplateError::UnbalancedParen.message(), "unbalanced paren");
    assert_eq!(TemplateError::BadInvocationShape.message(), "bad template format");
    assert_eq!(TemplateError::InvalidText.message(), "template text is not UTF-8");
}
