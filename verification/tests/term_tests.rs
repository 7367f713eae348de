use important::term::{insert_char, split_into_slices, text_lines, Canvas, PromptDomain, ResponseDomain};

#[test]
fn response_domain_build_takes_upper_two_thirds() {
    let d = ResponseDomain::build((80, 24));
    assert_eq!(d.zero, (0, 0));
    assert_eq!(d.size_e, (80, 16));
    assert_eq!(d.buf, "");
    assert_eq!(d.holder, "");
    assert!(d.indices.is_empty());
    assert_eq!(d.newline_index, 0);
    assert!(!d.is_done);
}

#[test]
fn prompt_domain_build_takes_lower_third() {
    let d = PromptDomain::build((80, 24));
    assert_eq!(d.zero, (0, 16));
    assert_eq!(d.size_e, (80, 8));
    assert_eq!(d.buf, "");
    assert!(!d.is_submit);
    let d = PromptDomain::build((100, 25));
    assert_eq!(d.zero, (0, 16));
    assert_eq!(d.size_e, (100, 9));
}

#[test]
fn domains_tile_on_concrete_sizes() {
    for &(w, h) in &[(80u16, 24u16), (1, 1), (0, 0), (200, 61), (3, 32767), (5, 40000), (7, u16::MAX)] {
        let r = ResponseDomain::build((w, h));
        let p = PromptDomain::build((w, h));
        assert_eq!(r.size_e.1, p.zero.1);
        assert_eq!(p.zero.1 + p.size_e.1, h);
        assert_eq!(r.size_e.0, w);
        assert_eq!(p.size_e.0, w);
    }
}

#[test]
fn update_relayouts_and_keeps_contents() {
    let mut r = ResponseDomain::build((80, 24));
    r.buf.push_str("answer");
    r.is_done = true;
    r.update((120, 30));
    assert_eq!(r.zero, (0, 0));
    assert_eq!(r.size_e, (120, 20));
    assert_eq!(r.buf, "answer");
    assert!(r.is_done);
    let mut p = PromptDomain::build((80, 24));
    p.buf.push_str("question");
    p.update((120, 30));
    assert_eq!(p.zero, (0, 20));
    assert_eq!(p.size_e, (120, 10));
    assert_eq!(p.buf, "question");
    let fresh = PromptDomain::build((120, 30));
    assert_eq!(fresh.zero, p.zero);
    assert_eq!(fresh.size_e, p.size_e);
}

#[test]
fn calculate_buf_lines_counts_bytes() {
    let mut r = ResponseDomain::build((80, 24));
    r.buf = "a".repeat(170);
    assert_eq!(r.calculate_buf_lines(), 2);
    r.buf = "é".repeat(50);
    assert_eq!(r.calculate_buf_lines(), 1);
    let mut p = PromptDomain::build((10, 24));
    p.buf = "abcdefghi".to_string();
    assert_eq!(p.calculate_buf_lines(), 0);
    p.buf = "abcdefghij".to_string();
    assert_eq!(p.calculate_buf_lines(), 1);
}

#[test]
fn canvas_build_lays_out_both_domains() {
    let c = Canvas::build((80, 24));
    assert_eq!(c.size, (80, 24));
    assert_eq!(c.response_domain.size_e, (80, 16));
    assert_eq!(c.prompt_domain.zero, (0, 16));
    assert_eq!(c.prompt_domain.size_e, (80, 8));
    assert_eq!(c.window_newline_index, 0);
    let copy = c.clone();
    assert_eq!(copy.prompt_domain.zero, c.prompt_domain.zero);
}

#[test]
fn insert_char_at_byte_offsets() {
    assert_eq!(insert_char("hello", 2, 'X'), "heXllo");
    assert_eq!(insert_char("hello", 0, 'X'), "Xhello");
    assert_eq!(insert_char("hello", 5, '\n'), "hello\n");
    assert_eq!(insert_char("héllo", 3, 'X'), "héXllo");
    assert_eq!(insert_char("", 0, 'ü'), "ü");
}

#[test]
fn split_into_slices_cuts_every_n_bytes() {
    assert_eq!(split_into_slices("abcdefg", 3), vec!["abc", "def", "g"]);
    assert_eq!(split_into_slices("abcdef", 3), vec!["abc", "def"]);
    assert_eq!(split_into_slices("ab", 3), vec!["ab"]);
    assert!(split_into_slices("", 3).is_empty());
    assert!(split_into_slices("", 0).is_empty());
    assert_eq!(split_into_slices("éé", 2), vec!["é", "é"]);
    let text = "the quick brown fox";
    assert_eq!(split_into_slices(text, 4).concat(), text);
}

#[test]
fn text_lines_matches_std_lines() {
    let cases = ["", "\n", "a", "a\n", "a\nb", "a\r\nb\r\n", "a\r", "\r\n\r\n", "x\n\ny", "é\nü"];
    for c in cases {
        let expected: Vec<String> = c.lines().map(|l| l.to_string()).collect();
        assert_eq!(text_lines(c), expected, "for {:?}", c);
    }
    assert_eq!(text_lines("a\nb\r\nc\n"), vec!["a", "b", "c"]);
}

#[test]
fn final_newline_adds_no_line() {
    for t in ["ab", "a\nb", "x\r\ny", "é"] {
        assert_eq!(text_lines(t), text_lines(&format!("{}\n", t)));
    }
    assert_ne!(text_lines(""), text_lines("\n"));
}

#[test]
fn slices_are_full_width_but_the_last() {
    let text = "abcdefghij";
    let slices = split_into_slices(text, 4);
    assert_eq!(slices.len(), 3);
    for s in &slices[..slices.len() - 1] {
        assert_eq!(s.len(), 4);
    }
    assert!(slices.iter().all(|s| !s.is_empty() && s.len() <= 4));
    assert_eq!(slices.concat(), text);
}

#[test]
fn insertion_keeps_other_characters() {
    let original = "añb";
    let res = insert_char(original, 3, '!');
    assert_eq!(res.chars().count(), original.chars().count() + 1);
    assert_eq!(res.replacen('!', "", 1), original);
}
