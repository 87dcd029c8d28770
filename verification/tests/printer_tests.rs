use diff_render::printer::DiffState;
use diff_render::rows::LineRow;
use diff_render::spans::{Span, Style};

fn chars(s: &str) -> Vec<char> {
    s.chars().collect()
}

fn line_text(line: &Vec<Span>) -> String {
    line.iter()
        .flat_map(|sp| sp.text.iter().copied())
        .collect()
}

#[test]
fn session_pairs_removed_with_following_added() {
    let mut st = DiffState::new();
    st.process(LineRow::Same(chars("ctx"), chars("ctx")));
    st.process(LineRow::Gone(chars("old")));
    st.process(LineRow::Added(chars("new")));
    let out = st.finish();
    let texts: Vec<String> = out.iter().map(line_text).collect();
    assert_eq!(texts, vec![
        " ctx".to_string(),
        "-old".to_string(),
        "+new".to_string(),
        String::new(),
    ]);
    assert!(out[1].iter().all(|sp| matches!(sp.style, Style::Red | Style::Plain)));
    assert!(out[2].iter().all(|sp| matches!(sp.style, Style::Green | Style::Plain)));
}

#[test]
fn session_flushes_pending_removal_before_a_matched_line() {
    let mut st = DiffState::new();
    st.process(LineRow::Gone(chars("a")));
    st.process(LineRow::Same(chars("b"), chars("b")));
    let out = st.finish();
    let texts: Vec<String> = out.iter().map(line_text).collect();
    assert_eq!(texts, vec!["-a".to_string(), " b".to_string(), String::new()]);
    assert!(matches!(out[0][0].style, Style::Red));
}
