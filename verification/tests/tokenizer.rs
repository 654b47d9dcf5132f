use saba_core::renderer::html::attribute::Attribute;
use saba_core::renderer::html::token::{HtmlToken, HtmlTokenizer};

fn tokens_of(mut tokenizer: HtmlTokenizer) -> Vec<HtmlToken> {
    let mut out = Vec::new();
    while let Some(token) = tokenizer.next() {
        out.push(token);
        assert!(out.len() < 10_000, "the tokenizer does not come to an end");
    }
    assert_eq!(tokenizer.next(), None);
    out
}

fn tokens(html: &str) -> Vec<HtmlToken> {
    tokens_of(HtmlTokenizer::new(html.to_string()))
}

fn script_tokens(html: &str) -> Vec<HtmlToken> {
    let mut tokenizer = HtmlTokenizer::new(html.to_string());
    tokenizer.switch_to_script_data();
    tokens_of(tokenizer)
}

fn attribute(name: &str, value: &str) -> Attribute {
    let mut a = Attribute::new();
    for c in name.chars() {
        a.add_char(c, true);
    }
    for c in value.chars() {
        a.add_char(c, false);
    }
    a
}

fn start(tag: &str, self_closing: bool, attributes: Vec<Attribute>) -> HtmlToken {
    HtmlToken::StartTag { tag: tag.to_string(), self_closing, attributes }
}

fn end(tag: &str) -> HtmlToken {
    HtmlToken::EndTag { tag: tag.to_string() }
}

fn chars(text: &str) -> Vec<HtmlToken> {
    text.chars().map(HtmlToken::Char).collect()
}

#[test]
fn attribute_is_built_a_character_at_a_time() {
    let mut a = Attribute::new();
    assert_eq!(a.name(), "");
    assert_eq!(a.value(), "");
    a.add_char('i', true);
    a.add_char('x', false);
    a.add_char('d', true);
    assert_eq!(a.name(), "id");
    assert_eq!(a.value(), "x");
    assert_eq!(a, attribute("id", "x"));
}

#[test]
fn empty_input_ends_at_once() {
    assert_eq!(tokens(""), vec![HtmlToken::Eof]);
}

#[test]
fn start_and_end_tag() {
    assert_eq!(tokens("<a></a>"), vec![start("a", false, vec![]), end("a"), HtmlToken::Eof]);
}

#[test]
fn attributes_are_extracted() {
    assert_eq!(
        tokens("<div class=\"a b\" disabled>"),
        vec![
            start("div", false, vec![attribute("class", "a b"), attribute("disabled", "")]),
            HtmlToken::Eof
        ]
    );
}

#[test]
fn self_closing_tag() {
    assert_eq!(tokens("<br/>"), vec![start("br", true, vec![]), HtmlToken::Eof]);
    assert_eq!(tokens("<br />"), vec![start("br", true, vec![]), HtmlToken::Eof]);
    assert_eq!(
        tokens("<img src=a.png />"),
        vec![start("img", true, vec![attribute("src", "a.png")]), HtmlToken::Eof]
    );
}

#[test]
fn characters_pass_through_one_by_one() {
    assert_eq!(
        tokens("<p>Hi</p>"),
        vec![start("p", false, vec![]), HtmlToken::Char('H'), HtmlToken::Char('i'), end("p"), HtmlToken::Eof]
    );
}

#[test]
fn unfinished_tag_is_dropped() {
    assert_eq!(tokens("a<b"), vec![HtmlToken::Char('a'), HtmlToken::Eof]);
    assert_eq!(tokens("a<"), vec![HtmlToken::Char('a'), HtmlToken::Eof]);
    assert_eq!(tokens("a</"), vec![HtmlToken::Char('a'), HtmlToken::Eof]);
    assert_eq!(tokens("<b c"), vec![HtmlToken::Eof]);
    assert_eq!(tokens("<b c="), vec![HtmlToken::Eof]);
    assert_eq!(tokens("<b c=\"d"), vec![HtmlToken::Eof]);
    assert_eq!(tokens("<b c='d"), vec![HtmlToken::Eof]);
    assert_eq!(tokens("<b c=d"), vec![HtmlToken::Eof]);
    assert_eq!(tokens("<b c='d'"), vec![HtmlToken::Eof]);
    assert_eq!(tokens("<b "), vec![HtmlToken::Eof]);
    assert_eq!(tokens("<b /"), vec![HtmlToken::Eof]);
}

#[test]
fn bare_less_than_sign_is_dropped_and_the_text_goes_on() {
    assert_eq!(tokens("a<1"), vec![HtmlToken::Char('a'), HtmlToken::Char('1'), HtmlToken::Eof]);
    assert_eq!(tokens("a < b"), {
        let mut t = chars("a  b");
        t.push(HtmlToken::Eof);
        t
    });
    assert_eq!(tokens("</>"), vec![HtmlToken::Char('>'), HtmlToken::Eof]);
    assert_eq!(tokens("<<a>"), vec![start("a", false, vec![]), HtmlToken::Eof]);
}

#[test]
fn names_are_folded_to_lower_case() {
    let upper = tokens("<DIV CLASS=\"A B\" Disabled></DiV>");
    assert_eq!(
        upper,
        vec![
            start("div", false, vec![attribute("class", "A B"), attribute("disabled", "")]),
            end("div"),
            HtmlToken::Eof
        ]
    );
    assert_eq!(upper, tokens("<div class=\"A B\" disabled></div>"));
}

#[test]
fn non_ascii_letters_are_kept_as_they_are() {
    assert_eq!(tokens("<aÄÉ>"), vec![start("aÄÉ", false, vec![]), HtmlToken::Eof]);
    assert_eq!(tokens("<Ä>"), vec![HtmlToken::Char('Ä'), HtmlToken::Char('>'), HtmlToken::Eof]);
}

#[test]
fn quoted_values() {
    assert_eq!(
        tokens("<a b='c d' e=\"f'g\" h=i >"),
        vec![
            start("a", false, vec![attribute("b", "c d"), attribute("e", "f'g"), attribute("h", "i")]),
            HtmlToken::Eof
        ]
    );
    assert_eq!(
        tokens("<a b = 'c' >x"),
        vec![start("a", false, vec![attribute("b", "c")]), HtmlToken::Char('x'), HtmlToken::Eof]
    );
}

#[test]
fn tag_with_unquoted_last_value_is_not_handed_out() {
    assert_eq!(tokens("<a b=c>x"), vec![HtmlToken::Char('x'), HtmlToken::Eof]);
    assert_eq!(tokens("<a b=\"c\">x"), vec![HtmlToken::Char('x'), HtmlToken::Eof]);
    assert_eq!(
        tokens("<a b=\"c\" >x"),
        vec![start("a", false, vec![attribute("b", "c")]), HtmlToken::Char('x'), HtmlToken::Eof]
    );
    assert_eq!(
        tokens("<a b=c d>"),
        vec![start("a", false, vec![attribute("b", "c"), attribute("d", "")]), HtmlToken::Eof]
    );
}

#[test]
fn text_after_a_closing_quote_joins_the_value() {
    assert_eq!(
        tokens("<a b=\"c\"d e>"),
        vec![start("a", false, vec![attribute("b", "cd"), attribute("e", "")]), HtmlToken::Eof]
    );
}

#[test]
fn consecutive_attributes_without_values() {
    assert_eq!(
        tokens("<input checked disabled  readonly>"),
        vec![
            start(
                "input",
                false,
                vec![attribute("checked", ""), attribute("disabled", ""), attribute("readonly", "")]
            ),
            HtmlToken::Eof
        ]
    );
    assert_eq!(
        tokens("<a b =c d>"),
        vec![start("a", false, vec![attribute("b", "c"), attribute("d", "")]), HtmlToken::Eof]
    );
}

#[test]
fn second_space_after_the_tag_name_starts_a_nameless_attribute() {
    assert_eq!(
        tokens("<a  b>"),
        vec![start("a", false, vec![attribute("", ""), attribute("b", "")]), HtmlToken::Eof]
    );
}

#[test]
fn end_tag_carries_no_attributes() {
    assert_eq!(tokens("</a b=\"c\" d>"), vec![end("a"), HtmlToken::Eof]);
    assert_eq!(tokens("</a b>x"), vec![end("a"), HtmlToken::Char('x'), HtmlToken::Eof]);
    assert_eq!(tokens("</a/>"), vec![end("a"), HtmlToken::Eof]);
    assert_eq!(tokens("</a =b >"), vec![end("a"), HtmlToken::Eof]);
    assert_eq!(tokens("</a b=c>x"), vec![HtmlToken::Char('x'), HtmlToken::Eof]);
}

#[test]
fn self_closing_state_skips_other_characters() {
    assert_eq!(tokens("<a/ x>"), vec![start("a", true, vec![]), HtmlToken::Eof]);
}

#[test]
fn script_text_is_handed_out_as_characters() {
    let mut expected = chars("if (a < b) { <p> }");
    expected.push(end("script"));
    expected.push(HtmlToken::Char('x'));
    expected.push(HtmlToken::Eof);
    assert_eq!(script_tokens("if (a < b) { <p> }</script>x"), expected);
}

#[test]
fn script_end_tag_is_folded_to_lower_case() {
    assert_eq!(script_tokens("</SCRIPT>"), vec![end("script"), HtmlToken::Eof]);
}

#[test]
fn failed_script_end_tag_is_replayed() {
    let mut expected = chars("</Sc x");
    expected.push(HtmlToken::Eof);
    assert_eq!(script_tokens("</Sc x"), expected);

    let mut expected = chars("a</b c</d>");
    expected.pop();
    expected.pop();
    expected.pop();
    expected.pop();
    expected.push(end("d"));
    expected.push(HtmlToken::Eof);
    assert_eq!(script_tokens("a</b c</d>"), expected);
}

#[test]
fn script_text_that_ends_in_an_opener() {
    assert_eq!(script_tokens("<"), vec![HtmlToken::Char('<'), HtmlToken::Eof]);
    assert_eq!(script_tokens("</"), vec![HtmlToken::Char('<'), HtmlToken::Eof]);
    assert_eq!(script_tokens("</1"), vec![HtmlToken::Char('<'), HtmlToken::Char('1'), HtmlToken::Eof]);
    let mut expected = chars("</ab");
    expected.push(HtmlToken::Eof);
    assert_eq!(script_tokens("</ab"), expected);
}

#[test]
fn script_mode_is_left_at_the_end_tag() {
    assert_eq!(
        script_tokens("x</script><b>"),
        vec![HtmlToken::Char('x'), end("script"), start("b", false, vec![]), HtmlToken::Eof]
    );
}

#[test]
fn tokenizer_outside_script_mode_reads_script_text_as_markup() {
    assert_eq!(
        tokens("<script>a<b></script>"),
        vec![
            start("script", false, vec![]),
            HtmlToken::Char('a'),
            start("b", false, vec![]),
            end("script"),
            HtmlToken::Eof
        ]
    );
}

#[test]
fn nothing_comes_after_the_end_of_input() {
    let mut tokenizer = HtmlTokenizer::new("x".to_string());
    assert_eq!(tokenizer.next(), Some(HtmlToken::Char('x')));
    assert_eq!(tokenizer.next(), Some(HtmlToken::Eof));
    assert_eq!(tokenizer.next(), None);
    assert_eq!(tokenizer.next(), None);
    tokenizer.switch_to_script_data();
    assert_eq!(tokenizer.next(), None);
}

#[test]
fn every_input_over_a_small_alphabet_comes_to_an_end() {
    let alphabet = ['<', '>', '/', '=', ' ', '"', '\'', 'a', 'B', '1'];
    let mut word: Vec<usize> = Vec::new();
    for len in 0..5 {
        word.clear();
        word.resize(len, 0);
        loop {
            let text: String = word.iter().map(|&i| alphabet[i]).collect();
            for script in [false, true] {
                let out = if script { script_tokens(&text) } else { tokens(&text) };
                assert_eq!(out.last(), Some(&HtmlToken::Eof), "{:?}", text);
                assert_eq!(out.iter().filter(|t| **t == HtmlToken::Eof).count(), 1, "{:?}", text);
                for token in &out {
                    let names: Vec<String> = match token {
                        HtmlToken::StartTag { tag, attributes, .. } => {
                            let mut names = vec![tag.clone()];
                            names.extend(attributes.iter().map(|a| a.name()));
                            names
                        }
                        HtmlToken::EndTag { tag } => vec![tag.clone()],
                        _ => vec![],
                    };
                    for name in names {
                        assert!(!name.chars().any(|c| c.is_ascii_uppercase()), "{:?}", text);
                    }
                }
            }
            let mut i = 0;
            while i < len {
                word[i] += 1;
                if word[i] < alphabet.len() {
                    break;
                }
                word[i] = 0;
                i += 1;
            }
            if i == len {
                break;
            }
        }
    }
}

#[test]
fn lower_case_in_names_only_keeps_the_tokens() {
    let written = "<DIV CLASS=\"A B\" Id=Main >Hi <BR/></DiV ><P Hidden>";
    let lowered = "<div class=\"A B\" id=Main >Hi <br/></div ><p hidden>";
    let expected = {
        let mut t = vec![start("div", false, vec![attribute("class", "A B"), attribute("id", "Main")])];
        t.extend(chars("Hi "));
        t.push(start("br", true, vec![]));
        t.push(end("div"));
        t.push(start("p", false, vec![attribute("hidden", "")]));
        t.push(HtmlToken::Eof);
        t
    };
    assert_eq!(tokens(written), expected);
    assert_eq!(tokens(lowered), expected);
    assert_eq!(tokens("<DIV CLASS>"), tokens("<div class>"));
}
