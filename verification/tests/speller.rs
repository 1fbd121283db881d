// End-to-end checks of the condition matcher, the case classifier and
// the affix-stripping recognizer, on small hand-built languages.

use neaspell::affix::{AffixEntry, AffixGroup};
use neaspell::caseclass::CharCase;
use neaspell::condition::Regex;
use neaspell::dict::{DicEntry, FlaggedWord};
use neaspell::lang::Lang;
use neaspell::parsestate::ParseState;
use neaspell::reader::ParseMode;
use neaspell::tokenize::TokenType;

fn aff_line(lang: &mut Lang, line: &str) {
    let tokens = neaspell::text::split_tokens(line);
    let mut ps = ParseState::new(1, tokens);
    lang.parse_aff_line(&mut ps);
}

fn dic_line(lang: &mut Lang, line_no: u32, line: &str) -> usize {
    lang.lng_parsed_line = String::from(line);
    let tokens = neaspell::text::split_tokens(line);
    let mut ps = ParseState::new(line_no, tokens);
    lang.parse_dic_line(&mut ps, true, true);
    ps.get_note_length()
}

fn dict_insert(lang: &mut Lang, word: &str, flags: Vec<String>) {
    let mut entry = DicEntry::new(1, String::from(word));
    entry.den_words.push(FlaggedWord::new(word, flags));
    let key = entry.hash_key();
    lang.slg_dic_hash.insert(key, entry);
}

fn suffix_group(name: &str, ix: u32, strip: &str, append: &str, cond: &str) -> AffixGroup {
    let mut g = AffixGroup::build_affix_group(String::from(name), false, true, 1);
    g.afg_ix = ix;
    let mut e = AffixEntry::new(
        String::from(strip),
        String::from(append),
        Vec::new(),
        String::from(cond),
    );
    e.afe_ix = 0;
    g.add_entry(e);
    g
}

#[test]
fn core_speller_regex_test() {
    let regex1 = Regex::new(String::from("[ai]to"));
    let regex2 = Regex::new(String::from("ato"));
    assert_eq!(regex1.match_edge("regato", false), true);
    assert_eq!(regex1.match_edge("regoto", false), false);
    assert_eq!(regex1.match_edge("regar", false), false);
    assert_eq!(regex1.match_edge("to", false), false);
    assert_eq!(regex2.match_edge("regato", false), true);
    assert_eq!(regex2.match_edge("regat", false), false);
    assert_eq!(regex2.match_edge("regito", false), false);
}

#[test]
fn engine_regex_test() {
    let regex1 = Regex::new(String::from("[ai]to"));
    let regex2 = Regex::new(String::from("ato"));
    assert_eq!(regex1.match_edge("regato", false), true);
    assert_eq!(regex1.match_edge("regoto", false), false);
    assert_eq!(regex1.match_edge("regar", false), false);
    assert_eq!(regex1.match_edge("to", false), false);
    assert_eq!(regex2.match_edge("regato", false), true);
    assert_eq!(regex2.match_edge("regat", false), false);
    assert_eq!(regex2.match_edge("regito", false), false);
}

#[test]
fn regex_empty_word_matches_only_empty_condition() {
    let empty = Regex::new(String::from(""));
    let one = Regex::new(String::from("a"));
    assert_eq!(empty.match_edge("", true), true);
    assert_eq!(empty.match_edge("", false), true);
    assert_eq!(one.match_edge("", true), false);
    assert_eq!(one.match_edge("", false), false);
}

#[test]
fn regex_reverse_agrees_with_forward() {
    // matching at the start equals matching the reversed word at the
    // end with the atoms reversed
    let fwd = Regex::new(String::from("[ab]c."));
    let rev = Regex::new(String::from(".c[ab]"));
    assert_eq!(fwd.match_edge("acxyz", true), rev.match_edge("zyxca", false));
    assert_eq!(fwd.match_edge("bcq", true), rev.match_edge("qcb", false));
    assert_eq!(fwd.match_edge("ccq", true), rev.match_edge("qcc", false));
}

#[test]
fn regex_legacy_wrappers_are_stripped() {
    let wrapped = Regex::new(String::from("(^ab)"));
    let plain = Regex::new(String::from("ab"));
    assert_eq!(wrapped.match_edge("abc", true), plain.match_edge("abc", true));
    let dotplus = Regex::new(String::from(".+to"));
    assert_eq!(dotplus.match_edge("gato", false), true);
}

#[test]
fn regex_error_never_matches() {
    let bad = Regex::new(String::from("a*b"));
    assert!(bad.rgx_error.is_some());
    assert_eq!(bad.match_edge("ab", true), false);
}

#[test]
fn classifier_cases_and_keys() {
    let (c, k) = CharCase::normalize_case("web");
    assert_eq!(c, CharCase::Lower);
    assert_eq!(k, "web");
    let (c, k) = CharCase::normalize_case("Hague");
    assert_eq!(c, CharCase::Initial);
    assert_eq!(k, "hague");
    let (c, k) = CharCase::normalize_case("UNICEF");
    assert_eq!(c, CharCase::Upper);
    assert_eq!(k, "unicef");
    let (c, k) = CharCase::normalize_case("TikTok");
    assert_eq!(c, CharCase::Other);
    assert_eq!(k, "TikTok");
    // classifying a key again is stable for lower-case keys
    let (c2, k2) = CharCase::normalize_case(&k.to_lowercase());
    assert_eq!(c2, CharCase::Lower);
    assert_eq!(k2, "tiktok");
}

#[test]
fn classifier_restores_surface_forms() {
    assert_eq!(CharCase::restore_case(CharCase::Lower, "casa"), "casa");
    assert_eq!(CharCase::restore_case(CharCase::Initial, "casa"), "Casa");
    assert_eq!(CharCase::restore_case(CharCase::Upper, "casa"), "CASA");
    assert_eq!(CharCase::restore_case(CharCase::Other, "TikTok"), "TikTok");
}

#[test]
fn basic_accept() {
    let mut lang = Lang::new("xx");
    dict_insert(&mut lang, "casa", Vec::new());
    dict_insert(&mut lang, "árbol", Vec::new());
    assert_eq!(lang.check_token("casa"), true);
    assert_eq!(lang.check_token("Casa"), true);
    assert_eq!(lang.check_token("CASA"), true);
    assert_eq!(lang.check_token("arbol"), false);
    assert_eq!(lang.check_token("árbol"), true);
    assert_eq!(lang.check_token(""), true);
}

#[test]
fn suffix_class() {
    let mut lang = Lang::new("xx");
    lang.slg_aff_groups.push(suffix_group("S", 0, "", "s", "."));
    dict_insert(&mut lang, "gato", vec![String::from("S")]);
    assert_eq!(lang.check_token("gato"), true);
    assert_eq!(lang.check_token("gatos"), true);
    assert_eq!(lang.check_token("gata"), false);
}

#[test]
fn condition_gating() {
    let mut lang = Lang::new("xx");
    lang.slg_aff_groups.push(suffix_group("A", 0, "y", "ies", "[^aeiou]y"));
    dict_insert(&mut lang, "city", vec![String::from("A")]);
    assert_eq!(lang.check_token("cities"), true);
    assert_eq!(lang.check_token("citys"), false);
    assert_eq!(lang.check_token("boys"), false);
}

#[test]
fn continuation_chain_two_suffixes() {
    let mut lang = Lang::new("xx");
    // class B continues into class C toward the root, so finalization
    // must put B into C's predecessor list
    aff_line(&mut lang, "SFX B Y 1");
    aff_line(&mut lang, "SFX B 0 ness/C .");
    aff_line(&mut lang, "SFX C Y 1");
    aff_line(&mut lang, "SFX C 0 es .");
    let notes = lang.finalize_parsing();
    assert!(notes.is_empty());
    assert_eq!(lang.slg_aff_groups[1].afg_prev_flags, vec![0]);
    dic_line(&mut lang, 1, "kind/B");
    assert_eq!(lang.check_token("kindness"), true);
    assert_eq!(lang.check_token("kindnesses"), true);
    // with a suffix budget of one, the chain is too deep
    lang.opts.slg_suffix_max = 1;
    assert_eq!(lang.check_token("kindnesses"), false);
}

#[test]
fn finalize_reports_unresolved_continuations() {
    let mut lang = Lang::new("xx");
    aff_line(&mut lang, "SFX B Y 1");
    aff_line(&mut lang, "SFX B 0 ness/Q .");
    let notes = lang.finalize_parsing();
    assert_eq!(notes, vec![String::from("Unknown next flags in group B: Q")]);
}

#[test]
fn dic_lines_fill_the_store() {
    let mut lang = Lang::new("xx");
    aff_line(&mut lang, "SFX S Y 1");
    aff_line(&mut lang, "SFX S 0 s .");
    let _ = lang.finalize_parsing();
    // the first line of a .dic file announces the entry count
    let mut ps = ParseState::new(1, neaspell::text::split_tokens("3"));
    lang.parse_dictionary_count(&mut ps);
    assert_eq!(ps.get_note_length(), 0);
    assert_eq!(lang.slg_dic_count, 3);
    dic_line(&mut lang, 2, "gato/S");
    dic_line(&mut lang, 3, "perro");
    dic_line(&mut lang, 4, "buena/X tarde");
    assert_eq!(lang.check_token("gatos"), true);
    assert_eq!(lang.check_token("perro"), true);
    assert_eq!(lang.check_token("buena tarde"), true);
    // an unknown flag is tallied, not fatal
    assert_eq!(lang.slg_noparse_flags.all()[0].0, "X");
}

#[test]
fn duplicate_entries_store_once() {
    let mut lang = Lang::new("xx");
    dic_line(&mut lang, 1, "casa");
    // equal key, equal trimmed source: dropped with a note
    let notes = dic_line(&mut lang, 2, "casa ");
    assert_eq!(lang.slg_dic_duplicated, 1);
    assert_eq!(notes, 1);
    // equal key, different source: the first entry still wins
    dic_line(&mut lang, 3, "Casa/S");
    assert_eq!(lang.slg_dic_duplicated, 2);
    assert_eq!(lang.check_token("casa"), true);
}

#[test]
fn tokenizer_with_wordchars() {
    let mut lang = Lang::new("xx");
    aff_line(&mut lang, "WORDCHARS '.0123456789");
    dic_line(&mut lang, 1, "it");
    dic_line(&mut lang, 2, "s");
    dic_line(&mut lang, 3, "3");
    dic_line(&mut lang, 4, "14");
    let runs = lang.check_text("It's 3.14.");
    // the apostrophe and the dots are optional word characters, so
    // `It's` and `3.14.` are single word runs and only the space is a
    // non-word run; the recognizer, not the tokenizer, trims boundary
    // optional characters
    assert_eq!(runs.len(), 3);
    assert_eq!(runs[0].0, "It's");
    assert_ne!(runs[0].1, TokenType::NotWord);
    assert_eq!(runs[1].0, " ");
    assert_eq!(runs[1].1, TokenType::NotWord);
    assert_eq!(runs[2].0, "3.14.");
    assert_ne!(runs[2].1, TokenType::NotWord);
    // concatenating the texts gives the input back
    let joined: String = runs.iter().map(|p| p.0.as_str()).collect();
    assert_eq!(joined, "It's 3.14.");
}

#[test]
fn text_lines_drive_a_full_load() {
    // a unified definition read line by line through the dispatcher:
    // tags at the top level, then an inline dictionary section, then
    // the test-word sections
    let mut lang = Lang::new("xx");
    let lines = [
        "SET UTF-8",
        "FLAG UTF-8",
        "SFX S Y 1",
        "SFX S 0 s .",
        "NEA DIC {",
        "gato/S",
        "}",
        "NEA TESTGOODWORDS {",
        "gatos",
        "}",
        "NEA TESTBADWORDS {",
        "gata",
        "}",
    ];
    let orig = ParseMode::Toplevel;
    let mut mode = orig;
    let mut line_no: u32 = 0;
    let mut finalized = false;
    for line in lines {
        line_no += 1;
        lang.lng_parsed_line = String::from(line);
        let mut ps = ParseState::new(line_no, neaspell::text::split_tokens(line));
        let mode_before = mode;
        mode = lang.parse_text_line(orig, mode, &mut ps, true, true);
        // as in a real load, the description part is finalized when the
        // first section leaves the top level
        if mode_before != mode && !finalized {
            let _ = lang.finalize_parsing();
            finalized = true;
        }
        lang.count_line_notes(&ps);
    }
    assert_eq!(mode, ParseMode::Toplevel);
    assert_eq!(lang.slg_set, "UTF-8");
    assert_eq!(lang.lng_pass_expected, vec![String::from("gatos")]);
    assert_eq!(lang.lng_fail_expected, vec![String::from("gata")]);
    assert_eq!(lang.lng_total_notes, 0);
    assert_eq!(lang.check_token("gatos"), true);
    assert_eq!(lang.check_token("gata"), false);
}

#[test]
fn bad_gram_section_must_draw_a_note() {
    // a bad-grammar section that draws no parser note fails the test
    let mut lang = Lang::new("xx");
    let orig = ParseMode::Toplevel;
    let mut mode = orig;
    for (no, line) in ["NEA TESTBADGRAM {", "TRY abc", "}"].iter().enumerate() {
        lang.lng_parsed_line = String::from(*line);
        let mut ps = ParseState::new(no as u32 + 1, neaspell::text::split_tokens(line));
        mode = lang.parse_text_line(orig, mode, &mut ps, true, true);
        lang.count_line_notes(&ps);
    }
    assert!(lang.lng_testing_bad_gram);
    assert!(!lang.lng_test_bad_gram_passed);

    // one with a malformed line inside passes
    let mut lang2 = Lang::new("xx");
    let mut mode2 = orig;
    for (no, line) in ["NEA TESTBADGRAM {", "SFX X", "}"].iter().enumerate() {
        lang2.lng_parsed_line = String::from(*line);
        let mut ps = ParseState::new(no as u32 + 1, neaspell::text::split_tokens(line));
        mode2 = lang2.parse_text_line(orig, mode2, &mut ps, true, true);
        lang2.count_line_notes(&ps);
    }
    assert!(lang2.lng_test_bad_gram_passed);
}

#[test]
fn check_untokenized_grades_words() {
    let mut lang = Lang::new("xx");
    dic_line(&mut lang, 1, "casa");
    let checked = lang.check_untokenized("casa perro");
    assert_eq!(checked.len(), 2);
    assert_eq!(checked[0], (String::from("casa"), true));
    assert_eq!(checked[1], (String::from("perro"), false));
}

#[test]
fn case_gating() {
    let mut lang = Lang::new("xx");
    dict_insert(&mut lang, "UNESCO", Vec::new());
    assert_eq!(lang.check_token("UNESCO"), true);
    assert_eq!(lang.check_token("Unesco"), false);
    // lowercase against an uppercase entry passes only outside the
    // compatibility mode
    assert_eq!(lang.check_token("unesco"), true);
    lang.lng_mode_flags = 1;
    assert_eq!(lang.check_token("unesco"), false);
}

#[test]
fn wordchars_trimming() {
    let mut lang = Lang::new("xx");
    lang.opts.slg_wordchars.push('\'');
    lang.opts.slg_wordchars.push('.');
    dict_insert(&mut lang, "it", Vec::new());
    // a trailing optional character is trimmed before the second try
    assert_eq!(lang.check_token("it."), true);
    assert_eq!(lang.check_token("it'"), true);
    assert_eq!(lang.check_token("xyz."), false);
}

#[test]
fn aff_lines_fill_options_and_classes() {
    let mut lang = Lang::new("xx");
    let run = |lang: &mut Lang, line: &str| {
        let tokens = neaspell::text::split_tokens(line);
        let mut ps = neaspell::parsestate::ParseState::new(1, tokens);
        lang.parse_aff_line(&mut ps);
    };
    run(&mut lang, "TRY abc");
    assert_eq!(lang.opts.slg_try, "abc");
    run(&mut lang, "WORDCHARS '.");
    assert_eq!(lang.opts.slg_wordchars, vec!['\'', '.']);
    run(&mut lang, "COMPLEXPREFIXES");
    assert_eq!(lang.opts.slg_prefix_max, 2);
    assert_eq!(lang.opts.slg_suffix_max, 1);
    run(&mut lang, "MAXDIFF 7");
    assert_eq!(lang.opts.slg_max_diff, 7);
    run(&mut lang, "SFX S Y 1");
    run(&mut lang, "SFX S 0 s .");
    assert_eq!(lang.slg_aff_groups.len(), 1);
    assert_eq!(lang.slg_aff_groups[0].afg_name, "S");
    assert_eq!(lang.slg_aff_groups[0].afg_affixes.len(), 1);
    assert_eq!(lang.slg_aff_groups[0].afg_affixes[0].afe_add, "s");
    run(&mut lang, "UNKNOWNTAG zzz");
    assert_eq!(lang.slg_noparse_tags.all().len(), 1);
    assert_eq!(lang.slg_noparse_tags.all()[0].0, "UNKNOWNTAG");
    assert_eq!(lang.slg_noparse_tags.all()[0].1, 1);
    // an affix class built by the parser drives the recognizer
    dict_insert(&mut lang, "gato", vec![String::from("S")]);
    assert_eq!(lang.check_token("gatos"), true);
}

#[test]
fn flag_splitting_by_format() {
    let mut lang = Lang::new("xx");
    let flags = lang.parse_flags("AB");
    assert_eq!(flags, vec![String::from("A"), String::from("B")]);
    lang.slg_flag = neaspell::lang::FlagFormat::DoubleChar;
    let flags = lang.parse_flags("ABCD");
    assert_eq!(flags, vec![String::from("AB"), String::from("CD")]);
    lang.slg_flag = neaspell::lang::FlagFormat::Numeric;
    let flags = lang.parse_flags("12,345");
    assert_eq!(flags, vec![String::from("12"), String::from("345")]);
}

#[test]
fn numeral_parsing_and_printing() {
    assert_eq!(neaspell::text::parse_u32("57157"), Some(57157));
    assert_eq!(neaspell::text::parse_u32("+7"), Some(7));
    assert_eq!(neaspell::text::parse_u32(""), None);
    assert_eq!(neaspell::text::parse_u32("12a"), None);
    assert_eq!(neaspell::text::parse_u32("4294967295"), Some(u32::MAX));
    assert_eq!(neaspell::text::parse_u32("4294967296"), None);
    assert_eq!(neaspell::text::u32_string(0), "0");
    assert_eq!(neaspell::text::u32_string(57157), "57157");
}

#[test]
fn dictionary_key_joins_words() {
    let mut entry = DicEntry::new(3, String::from("buena tarde"));
    entry.den_words.push(FlaggedWord::new("buena", Vec::new()));
    entry.den_words.push(FlaggedWord::new("tarde", Vec::new()));
    assert_eq!(entry.hash_key(), "buena tarde");
}

#[test]
fn trimming_and_splitting() {
    assert_eq!(neaspell::text::trim_spaces("  casa  "), "casa");
    assert_eq!(neaspell::text::trim_spaces("   "), "");
    let toks = neaspell::text::split_tokens("SFX S 0 s .");
    assert_eq!(toks, vec!["SFX", "S", "0", "s", "."]);
    let parts = neaspell::text::split_on_char("a/b//c", '/');
    assert_eq!(parts, vec!["a", "b", "", "c"]);
}
