use fuzzy_matcher::skim::SkimMatcherV2;
use fuzzy_matcher::FuzzyMatcher;
use minote::models::Note;
use minote::search::{grade, match_title_and_snippet, rank, search};

fn note(subject: &str, snippet: &str) -> Note {
    Note { subject: subject.to_string(), snippet: snippet.to_string(), ..Note::default() }
}

#[test]
fn grade_prefers_the_fuzzy_score() {
    assert_eq!(grade(Some(30), Some(12), false), Some(30));
    assert_eq!(grade(Some(5), Some(12), true), Some(12));
    assert_eq!(grade(None, Some(12), false), Some(12));
    assert_eq!(grade(None, None, true), Some(1));
    assert_eq!(grade(Some(0), Some(-3), true), Some(1));
    assert_eq!(grade(Some(0), None, false), None);
    assert_eq!(grade(None, None, false), None);
    assert_eq!(grade(Some(i64::MAX), Some(i64::MIN), false), Some(i64::MAX));
}

#[test]
fn score_is_that_of_the_skim_matcher() {
    let matcher = SkimMatcherV2::default();
    let expected = matcher.fuzzy_match("axbycz", "abc");
    assert!(expected.unwrap() > 0);
    assert_eq!(match_title_and_snippet("axbycz", "", "abc"), expected);
    assert_eq!(match_title_and_snippet("", "axbycz", "abc"), expected);
    let better = matcher.fuzzy_match("abc", "abc");
    assert_eq!(match_title_and_snippet("axbycz", "abc", "abc"), better);
    assert_eq!(match_title_and_snippet("abc", "abx", "xyz"), None);
}

#[test]
fn containment_ignores_case() {
    assert_eq!(SkimMatcherV2::default().fuzzy_match("groceries", "GROC"), None);
    assert_eq!(match_title_and_snippet("groceries", "", "GROC"), Some(1));
    assert_eq!(match_title_and_snippet("", "ÄPFEL kaufen", "äpfel K"), Some(1));
    assert_eq!(match_title_and_snippet("groceries", "list", "GROX"), None);
}

#[test]
fn every_note_matches_the_empty_query() {
    assert_eq!(match_title_and_snippet("anything", "at all", ""), Some(0));
    let notes: Vec<Note> = (0..25).map(|i| note(&format!("note {i}"), "")).collect();
    assert_eq!(search("", &notes), (0..20).collect::<Vec<usize>>());
    assert_eq!(search("", &Vec::new()), Vec::<usize>::new());
}

#[test]
fn ranking_is_by_score_and_stable() {
    let scores = vec![Some(5), None, Some(9), Some(5), Some(1), None, Some(9)];
    assert_eq!(rank(&scores, 20), vec![2, 6, 0, 3, 4]);
    assert_eq!(rank(&scores, 3), vec![2, 6, 0]);
    assert_eq!(rank(&scores, 0), Vec::<usize>::new());
    assert_eq!(rank(&vec![None, None], 20), Vec::<usize>::new());
    assert_eq!(rank(&vec![Some(-1), Some(0), Some(-1)], 20), vec![1, 0, 2]);
}

#[test]
fn search_shows_the_best_match_first() {
    let notes = vec![
        note("Shopping list", "milk, eggs"),
        note("Meeting", "discuss the shopping budget"),
        note("shop", ""),
        note("Unrelated", "nothing here"),
        note("<b>Shop</b>ping &amp; more", ""),
    ];
    let shown = search("shop", &notes);
    let matcher = SkimMatcherV2::default();
    let mut expected: Vec<(i64, usize)> = Vec::new();
    for (i, n) in notes.iter().enumerate() {
        let title = n.display_title();
        let snippet = n.clean_snippet();
        let best = std::cmp::max(
            matcher.fuzzy_match(&title, "shop").unwrap_or(0),
            matcher.fuzzy_match(&snippet, "shop").unwrap_or(0),
        );
        if best > 0 {
            expected.push((best, i));
        }
    }
    expected.sort_by(|a, b| b.0.cmp(&a.0));
    assert_eq!(shown, expected.iter().map(|e| e.1).collect::<Vec<usize>>());
    assert_eq!(shown.len(), 4);
    assert!(!shown.contains(&3));
}
