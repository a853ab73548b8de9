use tmpl8::normalize::collapse_newlines;

fn collapse(s: &[u8]) -> Vec<u8> {
    collapse_newlines(&s.to_vec())
}

#[test]
fn collapses_long_runs_and_trailing_newlines() {
    assert_eq!(collapse(b"a\n\n\n\nb\n\n\n"), b"a\n\nb\n".to_vec());
}

#[test]
fn collapse_is_idempotent_on_samples() {
    let samples: Vec<&[u8]> = vec![
        b"",
        b"\n",
        b"\n\n",
        b"\n\n\n\n",
        b"a",
        b"a\n",
        b"a\n\n",
        b"a\n\n\nb",
        b"a\nb\n\nc\n\n\n\nd\n\n",
        b"\n\nx\n\n\n",
    ];
    for s in samples {
        let once = collapse(s);
        let twice = collapse_newlines(&once);
        assert_eq!(once, twice);
    }
}

#[test]
fn short_runs_survive() {
    assert_eq!(collapse(b"a\nb"), b"a\nb".to_vec());
    assert_eq!(collapse(b"a\n\nb"), b"a\n\nb".to_vec());
    assert_eq!(collapse(b"a\nb\n"), b"a\nb\n".to_vec());
}

#[test]
fn interior_run_of_three_becomes_two() {
    assert_eq!(collapse(b"a\n\n\nb"), b"a\n\nb".to_vec());
}

#[test]
fn trailing_run_becomes_one() {
    assert_eq!(collapse(b"a\n\n"), b"a\n".to_vec());
    assert_eq!(collapse(b"\n\n\n"), b"\n".to_vec());
}

#[test]
fn empty_and_plain_text_unchanged() {
    assert_eq!(collapse(b""), b"".to_vec());
    assert_eq!(collapse(b"plain text"), b"plain text".to_vec());
}
