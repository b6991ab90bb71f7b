use echora_review::selection::{decorate_pieces, word_at, Highlight, Piece};

#[test]
fn a_click_selects_the_whole_word() {
    let text = "let 名字_1 = value;";
    let at = text.find('字').unwrap();
    assert_eq!(&text[word_at(text, at)], "名字_1");
    // Inside a multi-byte character, the word around its start.
    assert_eq!(&text[word_at(text, at + 1)], "名字_1");
    assert_eq!(&text[word_at(text, 3)], "let");
    assert_eq!(&text[word_at(text, 100)], "");
    assert_eq!(&text[word_at(text, text.len() - 2)], "value");
}

#[test]
fn highlights_cut_runs_at_their_edges() {
    let pieces = decorate_pieces(&[0..10, 10..20], &Some(5..12), &Some(8..9));
    assert_eq!(
        pieces,
        vec![
            Piece { span: 0, len: 5, highlight: Highlight::Plain },
            Piece { span: 0, len: 3, highlight: Highlight::Word },
            Piece { span: 0, len: 1, highlight: Highlight::Selection },
            Piece { span: 0, len: 1, highlight: Highlight::Word },
            Piece { span: 1, len: 2, highlight: Highlight::Word },
            Piece { span: 1, len: 8, highlight: Highlight::Plain },
        ]
    );
    assert_eq!(decorate_pieces(&[3..3], &None, &None), vec![]);
    assert_eq!(
        decorate_pieces(&[0..4], &None, &None),
        vec![Piece { span: 0, len: 4, highlight: Highlight::Plain }]
    );
}
