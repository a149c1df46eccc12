use fb2s::search::{SearchStep, SubstringSearch};

fn s(x: &str) -> String {
    String::from(x)
}

fn v(xs: &[&str]) -> Vec<String> {
    xs.iter().map(|x| s(x)).collect()
}

#[test]
fn a_new_search_starts_from_the_pattern() {
    let search = SubstringSearch::new(&s("Бау"));
    assert_eq!(search.mask(), "Бау");
    assert_eq!(search.sequel_length(), 4);
    assert_eq!(SubstringSearch::new(&s("")).sequel_length(), 1);
    assert_eq!(SubstringSearch::new(&s("abc")).sequel_length(), 4);
}

#[test]
fn several_longer_prefixes_end_the_search() {
    let search = SubstringSearch::new(&s("А"));
    match search.step(v(&["Ал", "Ан", "Аф", "Аб"])) {
        SearchStep::Finished(exact, rest) => {
            assert!(exact.is_empty());
            assert_eq!(rest, v(&["Аб", "Ал", "Ан", "Аф"]));
        }
        SearchStep::Next(_) => panic!("expected the search to end"),
    }
}

#[test]
fn the_mask_itself_is_kept_as_a_whole_name() {
    let search = SubstringSearch::new(&s("Бау"));
    match search.step(v(&["Бауэ", "Бау", "Баун"])) {
        SearchStep::Finished(exact, rest) => {
            assert_eq!(exact, v(&["Бау"]));
            assert_eq!(rest, v(&["Баун", "Бауэ"]));
        }
        SearchStep::Next(_) => panic!("expected the search to end"),
    }
}

#[test]
fn a_single_longer_prefix_narrows_the_search() {
    let search = SubstringSearch::new(&s("Ба"));
    let next = match search.step(v(&["Бау"])) {
        SearchStep::Next(next) => next,
        SearchStep::Finished(..) => panic!("expected the search to go on"),
    };
    assert_eq!(next.mask(), "Бау");
    assert_eq!(next.sequel_length(), 4);
    let next = match next.step(v(&["Бау", "Бауэ"])) {
        SearchStep::Next(next) => next,
        SearchStep::Finished(..) => panic!("expected the search to go on"),
    };
    assert_eq!(next.mask(), "Бауэ");
    match next.step(v(&["Бауэ"])) {
        SearchStep::Finished(exact, rest) => {
            assert_eq!(exact, v(&["Бау", "Бауэ"]));
            assert!(rest.is_empty());
        }
        SearchStep::Next(_) => panic!("expected the search to end"),
    }
}

#[test]
fn no_prefixes_end_the_search_with_no_choices() {
    match SubstringSearch::new(&s("Щщщ")).step(Vec::new()) {
        SearchStep::Finished(exact, rest) => {
            assert!(exact.is_empty());
            assert!(rest.is_empty());
        }
        SearchStep::Next(_) => panic!("expected the search to end"),
    }
}

#[test]
fn a_whole_series_name_ends_the_search() {
    let search = SubstringSearch::new(&s("Баукелэ. Александра"));
    match search.step(v(&["Баукелэ. Александра"])) {
        SearchStep::Finished(exact, rest) => {
            assert_eq!(exact, v(&["Баукелэ. Александра"]));
            assert!(rest.is_empty());
        }
        SearchStep::Next(_) => panic!("expected the search to end"),
    }
}
