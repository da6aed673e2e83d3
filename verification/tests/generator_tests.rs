use fmn_passgen::consts::digits;
use fmn_passgen::consts::letters;
use fmn_passgen::consts::symbols;
use fmn_passgen::parser::parse;
use fmn_passgen::password_maker::PasswordMaker;
use fmn_passgen::rng::DrawSource;
use fmn_passgen::types::Filter;

fn dict(words: &[&str]) -> Vec<String> {
    words.iter().map(|w| w.to_string()).collect()
}

fn run(template: &str, words: &[&str], draws: Vec<usize>) -> String {
    let expr = parse(template).unwrap();
    let d = dict(words);
    let mut src = DrawSource::new(draws);
    expr.generate(&d, &mut src)
}

#[test]
fn labeled_symbol_block_draws_once() {
    // One draw feeds all five repeats of the labeled block.
    let out = run("(7@symbol)!5", &[], vec![2]);
    assert_eq!(out.chars().count(), 5);
    let first = out.chars().next().unwrap();
    assert!(out.chars().all(|c| c == first));
    let alphabet = symbols();
    assert!(alphabet.contains(&first));
    assert_eq!(out, "#####");
}

#[test]
fn unlabeled_symbol_block_draws_each_repeat() {
    // Two distinct draws give two distinct symbols.
    let out = run("(symbol)!2", &[], vec![0, 1]);
    assert_eq!(out.chars().count(), 2);
    let cs: Vec<char> = out.chars().collect();
    assert_eq!(cs[0], '!');
    assert_eq!(cs[1], '"');
    assert_ne!(cs[0], cs[1]);
}

#[test]
fn word_bounds_restrict_candidates() {
    let words = ["ab", "abc", "abcd", "abcde"];
    for d in 0..16usize {
        let out = run("(word:min=3,max=4)", &words, vec![d]);
        assert!(out == "abc" || out == "abcd");
    }
}

#[test]
fn word_bounds_with_no_candidates_yield_empty_text() {
    let out = run("(word:min=3,max=4)", &["ab", "abcdef"], vec![5]);
    assert_eq!(out, "");
}

#[test]
fn empty_character_list_yields_empty_text() {
    let out = run("([])", &[], vec![5]);
    assert_eq!(out, "");
}

#[test]
fn upper_then_reversed_yields_tac() {
    // Uppercase first, then reverse.
    let out = run("(word|upper|reversed)", &["cat"], vec![0]);
    assert_eq!(out, "TAC");
}

#[test]
fn group_filter_applies_once_to_whole_repetition() {
    // Letters a then b are drawn; the group's filter uppercases the
    // whole concatenation once, not each block.
    let out = run("{(letter)|upper}!2", &[], vec![0, 1]);
    assert_eq!(out, "AB");
}

#[test]
fn cache_persists_across_group_iterations() {
    let template =
        "{(word:min=3,max=11|lower)(1@symbol)(word|upper)(1@symbol)}!2(digit)!4(symbol)";
    let words = ["alpha", "beta"];
    let draws = vec![0, 2, 1, 1, 0, 0, 1, 2, 3, 3];
    let out = run(template, &words, draws);
    assert_eq!(out, "alpha#BETA#beta#ALPHA#0123$");
    // The same symbol stands at all four labeled positions.
    let cs: Vec<char> = out.chars().collect();
    assert_eq!(cs[5], '#');
    assert_eq!(cs[10], '#');
    assert_eq!(cs[15], '#');
    assert_eq!(cs[21], '#');
}

#[test]
fn generation_is_deterministic_for_equal_draws() {
    let template = "{(word|lower)(1@symbol)(word|upper)(1@symbol)}!2(digit)!4(symbol)";
    let words = ["alpha", "beta", "gamma"];
    let draws = vec![4, 17, 9, 2, 30, 8, 1, 6, 3, 11];
    let a = run(template, &words, draws.clone());
    let b = run(template, &words, draws);
    assert_eq!(a, b);
}

#[test]
fn custom_definitions_expand() {
    let out = run("foo#(digit); (foo)!3", &[], vec![1, 2, 3]);
    assert_eq!(out, "123");
}

#[test]
fn custom_definitions_see_earlier_definitions() {
    let out = run("a#(digit), b#(a)(a); (b)", &[], vec![4, 5]);
    assert_eq!(out, "45");
}

#[test]
fn labeled_custom_definitions_cache_their_expansion() {
    // The labeled custom source is drawn once and reused.
    let out = run("pair#(digit)(digit); (1@pair)(1@pair)", &[], vec![3, 7]);
    assert_eq!(out, "3737");
}

#[test]
fn exhausted_draw_source_yields_zero_draws() {
    // Only one draw is scripted; the remaining picks read 0.
    let out = run("(digit)!3", &[], vec![9]);
    assert_eq!(out, "900");
}

#[test]
fn filters_apply_in_declaration_order() {
    let reversed_then_upper = run("(word|reversed|upper)", &["cat"], vec![0]);
    assert_eq!(reversed_then_upper, "TAC");
    let capitalize_first = run("(word|capitalizefirst)", &["cat"], vec![0]);
    assert_eq!(capitalize_first, "Cat");
    let capitalize_last = run("(word|capitalizelast)", &["cat"], vec![0]);
    assert_eq!(capitalize_last, "caT");
    let capitalize_not_first = run("(word|capitalizenotfirst)", &["cat"], vec![0]);
    assert_eq!(capitalize_not_first, "cAT");
    let capitalize_not_last = run("(word|capitalizenotlast)", &["cat"], vec![0]);
    assert_eq!(capitalize_not_last, "CAt");
    let lowered = run("(word|lower)", &["CAT"], vec![0]);
    assert_eq!(lowered, "cat");
}

#[test]
fn filter_apply_matches_std_case_mapping() {
    assert_eq!(Filter::Upper.apply("straße"), "STRASSE");
    assert_eq!(Filter::Lower.apply("ABC"), "abc");
    assert_eq!(Filter::Reversed.apply("abc"), "cba");
    assert_eq!(Filter::Upper.apply(""), "");
    assert_eq!(Filter::Reversed.apply(""), "");
    assert_eq!(Filter::CapitalizeFirst.apply(""), "");
    assert_eq!(Filter::CapitalizeLast.apply(""), "");
    assert_eq!(Filter::CapitalizeNotFirst.apply(""), "");
    assert_eq!(Filter::CapitalizeNotLast.apply(""), "");
}

#[test]
fn alphabets_hold_the_documented_characters() {
    let ds: String = digits().into_iter().collect();
    assert_eq!(ds, "0123456789");
    let ls: String = letters().into_iter().collect();
    assert_eq!(ls, "abcdefghijklmnopqrstuvwxyzABCDEFGHIJKLMNOPQRSTUVWXYZ");
    let ss: String = symbols().into_iter().collect();
    assert_eq!(ss, "!\"#$%&'()*+,-./:;<=>?@[\\]^_`{|}~");
}

#[test]
fn password_maker_produces_passwords() {
    let expr = parse("(digit)!4").unwrap();
    let mut maker = PasswordMaker::new(dict(&["alpha"]));
    let one = maker.make_password(&expr);
    assert_eq!(one.chars().count(), 4);
    assert!(one.chars().all(|c| c.is_ascii_digit()));
    let many = maker.make_passwords(&expr, 5);
    assert_eq!(many.len(), 5);
    for p in many {
        assert_eq!(p.chars().count(), 4);
    }
}

#[test]
fn password_maker_draws_words_from_its_dictionary() {
    let expr = parse("(word)").unwrap();
    let mut maker = PasswordMaker::new(dict(&["onlyword"]));
    for _ in 0..4 {
        assert_eq!(maker.make_password(&expr), "onlyword");
    }
}

#[test]
fn character_list_draws_from_its_characters() {
    for d in 0..8usize {
        let out = run("([xyz])", &[], vec![d]);
        assert!(out == "x" || out == "y" || out == "z");
    }
}

#[test]
fn unicode_character_lists_survive_generation() {
    let out = run("([\u{e9}])!3", &[], vec![0, 1, 2]);
    assert_eq!(out, "\u{e9}\u{e9}\u{e9}");
}

#[test]
fn same_label_different_kinds_do_not_collide() {
    // The cache key carries the source kind, so label 1 on a symbol and
    // label 1 on a digit are distinct entries.
    let out = run("(1@symbol)(1@digit)(1@symbol)(1@digit)", &[], vec![2, 7]);
    assert_eq!(out, "#7#7");
}

#[test]
fn largest_label_and_repeat() {
    let out = run("(99@symbol)!99", &[], vec![5]);
    assert_eq!(out.chars().count(), 99);
    let first = out.chars().next().unwrap();
    assert!(out.chars().all(|c| c == first));
}
