//! Generation: the recent tokens, stop strings and what is shown.
use minfer::generate::{match_stop_suffix, recent_window, Generation, Reply, REPEAT_LAST_N};
use minfer::models::SpecialTokens;

fn special() -> SpecialTokens {
    SpecialTokens { eos: 1, im_end: Some(2) }
}

#[test]
fn the_window_holds_the_most_recent_tokens() {
    assert_eq!(recent_window(&vec![1, 2, 3, 4], 2), vec![3, 4]);
    assert_eq!(recent_window(&vec![1, 2], 5), vec![1, 2]);
    assert_eq!(recent_window(&vec![1, 2], 0), Vec::<u32>::new());
}

#[test]
fn a_stop_string_is_found_at_the_end_of_the_text() {
    let stops = vec![b"END".to_vec(), b"\n\n".to_vec()];
    assert_eq!(match_stop_suffix(&b"the END".to_vec(), &stops), Some(4));
    assert_eq!(match_stop_suffix(&b"a\n\n".to_vec(), &stops), Some(1));
    assert_eq!(match_stop_suffix(&b"the END.".to_vec(), &stops), None);
    assert_eq!(match_stop_suffix(&b"ND".to_vec(), &stops), None);
    assert_eq!(match_stop_suffix(&b"END".to_vec(), &Vec::new()), None);
}

#[test]
fn shown_bytes_join_to_the_generated_text() {
    let mut g = Generation::new(&vec![10, 11, 12]);
    assert_eq!(g.pos, 3);
    let mut shown = Vec::new();
    for (i, (token, bytes)) in [(20u32, "he"), (21, ""), (22, "llo")].iter().enumerate() {
        assert!(g.wants_more(3));
        match g.accept(*token, &bytes.as_bytes().to_vec(), &special(), &Vec::new()) {
            Reply::Go { show, pos } => {
                assert_eq!(pos, 3 + i);
                shown.extend(show);
            }
            _ => panic!("token {token} ends nothing"),
        }
    }
    assert!(!g.wants_more(3));
    assert_eq!(shown, b"hello");
    assert_eq!(g.full, shown);
    assert_eq!(g.window, vec![10, 11, 12, 20, 21, 22]);
    assert_eq!(g.generated, vec![20, 21, 22]);
}

#[test]
fn special_tokens_end_a_generation_unseen() {
    for token in [1, 2] {
        let mut g = Generation::new(&vec![5]);
        assert!(matches!(g.accept(token, &b"x".to_vec(), &special(), &Vec::new()), Reply::Ended));
        assert!(g.generated.is_empty() && g.full.is_empty());
    }
}

#[test]
fn a_stop_string_split_over_tokens_is_cut() {
    let stops = vec![b"STOP".to_vec()];
    let mut g = Generation::new(&vec![5]);
    assert!(matches!(g.accept(7, &b"ab ".to_vec(), &special(), &stops), Reply::Go { .. }));
    match g.accept(8, &b"cSTOP".to_vec(), &special(), &stops) {
        Reply::Cut(show) => assert_eq!(show, b"c"),
        _ => panic!("the stop string is complete"),
    }
    let mut g = Generation::new(&vec![5]);
    assert!(matches!(g.accept(7, &b"ab ST".to_vec(), &special(), &stops), Reply::Go { .. }));
    match g.accept(8, &b"OP".to_vec(), &special(), &stops) {
        Reply::Cut(show) => assert!(show.is_empty()),
        _ => panic!("the stop string is complete"),
    }
    assert_eq!(g.full, b"ab ");
}

#[test]
fn the_window_forgets_old_tokens() {
    let prompt: Vec<u32> = (100..100 + REPEAT_LAST_N as u32).collect();
    let mut g = Generation::new(&prompt);
    g.accept(9, &Vec::new(), &special(), &Vec::new());
    assert_eq!(g.window.len(), REPEAT_LAST_N);
    assert_eq!(g.window[0], 101);
    assert_eq!(g.window[REPEAT_LAST_N - 1], 9);
}
