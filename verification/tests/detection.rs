//! Detection of mistyped words, with models of the three languages that are
//! built from short texts.

use rswitcher::bigrams::{
    build_table, score_en, score_ru, score_ua, LanguageModel, EN_BASE, EN_N, RU_BASE, RU_N,
    THRESHOLD_PER_BIGRAM, UA_BASE, UA_N,
};
use rswitcher::bilingual;
use rswitcher::buffer::{DetectionConfig, DetectionSnapshot, WordBuffer};
use rswitcher::detection::{
    decide, decide_forced, has_impossible_pair, has_punctuation, has_ru_markers, has_ua_markers, is_all_cyrillic,
    is_cyrillic_or_ua, resolve_cyrillic_preference,
};
use rswitcher::lexicon::{COMMON_EN_SHORT, COMMON_RU_SHORT, COMMON_UA_SHORT};
use rswitcher::scoring::switching_threshold;
use rswitcher::settings::PreferredCyrillic;
use rswitcher::typing::{apply_case_correction, Entry, Shape};
use rswitcher::words::WordSet;

const LANG_EN: u16 = 0x0409;
const LANG_RU: u16 = 0x0419;
const LANG_UA: u16 = 0x0422;

const ONE: i32 = 1_000_000;

const EN_TEXT: &str = "the quick brown fox jumps over the lazy dog and then it runs back to the place where the \
    other animals wait for the evening to come hello my friend how are you today please open \
    the notepad and write down the note about the space station backspace removes the last \
    letter and the space bar ends the word the package was placed back on the shelf in the \
    bookcase because the back door was open a function takes its arguments and returns a \
    value the editor shows the text in a window and the user can change the font or the size \
    of the letters when the work is done the file is saved to the disk and the program is \
    closed every page has a name and a place in the list some people like to read the news \
    in the morning others would rather have a cup of tea and look at the sea the pace of the \
    race was fast and the space between the cars was small so the driver had to be careful \
    the ink on the paper was dry the key to the house is under the stone near the tree they \
    talked about the weather and the price of bread we hope that the answer is there and \
    that the hotel has a room for the night the potato and the tomato are on the plate and \
    the notes of the opera are in the notebook it is hard to take the tape and to escape \
    from the cave";

const RU_TEXT: &str = "привет как твои дела сегодня хорошая погода и мы идём гулять в парк работа над проектом \
    идёт хорошо нужно только проверить результаты и написать отчёт улучшения видны сразу \
    после обновления программы мир стал лучше когда люди начали говорить друг с другом \
    вверху страницы стоит дата а внизу подпись двух авторов на столе лежит книга и карандаш \
    стол стоит у окна в комнате тихо и тепло вечером мы пили чай и смотрели старый фильм о \
    путешествии по северу страны утром дети пошли в школу а родители на работу время летит \
    быстро и надо успеть сделать всё что было задумано на прошлой неделе приходил мастер и \
    починил кран теперь вода не течёт в магазине купили хлеб молоко сыр и немного фруктов \
    собака спит на коврике у двери кошка сидит на подоконнике и смотрит на птиц город \
    просыпается рано на улицах появляются первые прохожие стоит остановка и автобус приходит \
    через пять минут просто поверить трудно но это правда улучшение качества требует \
    терпения и внимания изучение языка приносит радость решения принимаются вместе обучения \
    много не бывает";

const UA_TEXT: &str = "існування людства залежить від природи і культури існування мови має велике значення \
    користування бібліотекою безкоштовне планування роботи і навчання дітей є важливим \
    завданням друкування книжок почалося давно питання існування життя на інших планетах \
    цікавить науку сьогодні гарна погода і ми йдемо на прогулянку до парку привіт як твої \
    справи дуже дякую за запитання місто прокидається рано на вулицях з'являються перші \
    перехожі вранці діти йдуть до школи а батьки на роботу час летить швидко треба встигнути \
    зробити все що було заплановано на минулому тижні приходив майстер полагодив кран тепер \
    вода не тече у магазині купили хліб молоко сир трохи фруктів собака спить на килимку \
    біля дверей кішка сидить на підвіконні дивиться на птахів будування будинку тривало рік \
    святкування дня народження відбулося увечері існувати значить бути розташування меблів у \
    кімнаті зручне пакування речей забрало годину виховання дитини справа родини харчування \
    має бути здоровим існував колись давній звичай існують різні думки про виконання завдань";

const EN_WORDS: &[&str] = &[
    "bulk", "ctrl", "exit", "function", "github", "hello", "jpeg", "notepad", "place", "space",
];

const RU_WORDS: &[&str] = &["работа", "нужно", "штуку", "улучшения"];

const UA_WORDS: &[&str] = &["існування", "навчання", "питання"];

fn surprisals(text: &str, base: u32, n: u32) -> Vec<u64> {
    let table = build_table(&text.repeat(4), base, n);
    table
        .counts
        .iter()
        .map(|&c| ((table.total as f64 / c as f64).ln() * 1e9).round() as u64)
        .collect()
}

fn word_set(words: &[&str]) -> WordSet {
    let list: Vec<String> = words.iter().map(|w| w.to_string()).collect();
    WordSet::from_words(&list)
}

fn model() -> LanguageModel {
    LanguageModel::new(
        surprisals(EN_TEXT, EN_BASE, EN_N),
        surprisals(RU_TEXT, RU_BASE, RU_N),
        surprisals(UA_TEXT, UA_BASE, UA_N),
        word_set(EN_WORDS),
        word_set(RU_WORDS),
        word_set(UA_WORDS),
    )
    .expect("the tables have the right size")
}

fn push_en_word(buf: &mut WordBuffer, word: &str) {
    for c in word.chars() {
        let lc = c.to_ascii_lowercase();
        assert!(lc.is_ascii_alphabetic(), "push_en_word: non-alpha '{}'", c);
        let vk = lc as u16 - b'a' as u16 + 0x41;
        buf.push(vk, c.is_uppercase());
    }
}

fn push_en_chars(buf: &mut WordBuffer, s: &str) {
    for c in s.chars() {
        let is_upper = c.is_uppercase();
        let lc = c.to_lowercase().next().unwrap();
        let vk = match lc {
            'a'..='z' => lc as u16 - b'a' as u16 + 0x41,
            ';' => 0xBA,
            ',' => 0xBC,
            '.' => 0xBE,
            '[' => 0xDB,
            ']' => 0xDD,
            '\'' => 0xDE,
            '\\' => 0xDC,
            _ => panic!("untranslatable char {}", c),
        };
        buf.push(vk, is_upper);
    }
}

fn push_two(buf: &mut bilingual::buffer::WordBuffer, word: &str) {
    for c in word.chars() {
        let lc = c.to_ascii_lowercase();
        assert!(lc.is_ascii_alphabetic(), "push_two: non-alpha '{}'", c);
        let vk = lc as u16 - b'a' as u16 + 0x41;
        buf.push(vk, c.is_uppercase());
    }
}

// -- Scores ---------------------------------------------------------------------------

#[test]
fn score_en_is_finite_for_real_word() {
    let s = score_en("hello", &model());
    assert!(s.is_some(), "score_en('hello') = {:?}", s);
}

#[test]
fn score_ru_is_finite_for_real_word() {
    let s = score_ru("привет", &model());
    assert!(s.is_some(), "score_ru('привет') = {:?}", s);
}

#[test]
fn short_word_returns_neg_infinity() {
    assert_eq!(score_en("a", &model()), None);
    assert_eq!(score_ru("а", &model()), None);
}

#[test]
fn notepad_en_beats_tshcheyuzfv_ru() {
    let en = score_en("notepad", &model()).unwrap();
    let ru = score_ru("тщеузфв", &model()).unwrap();
    assert!(en > ru + THRESHOLD_PER_BIGRAM, "en={} ru={}", en, ru);
}

#[test]
fn privet_ru_beats_ghbdtn_en() {
    let ru = score_ru("привет", &model()).unwrap();
    let en = score_en("ghbdtn", &model()).unwrap();
    assert!(ru > en + THRESHOLD_PER_BIGRAM, "en={} ru={}", en, ru);
}

#[test]
fn hello_en_not_false_positive() {
    let en = score_en("hello", &model()).unwrap();
    let ru = score_ru("руддщ", &model()).unwrap();
    assert!(ru - en <= THRESHOLD_PER_BIGRAM, "en={} ru={}", en, ru);
}

#[test]
fn mir_ru_not_false_positive() {
    let ru = score_ru("мир", &model()).unwrap();
    let en = score_en("vbh", &model()).unwrap();
    assert!(en - ru <= THRESHOLD_PER_BIGRAM, "en={} ru={}", en, ru);
}

#[test]
fn common_en_bigrams_beat_rare_ones() {
    let common = score_en("the", &model()).unwrap();
    let rare = score_en("qzj", &model()).unwrap();
    assert!(common > rare, "common={} rare={}", common, rare);
}

#[test]
fn common_ru_bigrams_beat_rare_ones() {
    let common = score_ru("стол", &model()).unwrap();
    let rare = score_ru("щфщф", &model()).unwrap();
    assert!(common > rare, "common={} rare={}", common, rare);
}

#[test]
fn en_model_returns_neg_infinity_for_cyrillic() {
    assert_eq!(score_en("привет", &model()), None);
}

#[test]
fn ru_model_returns_neg_infinity_for_latin() {
    assert_eq!(score_ru("hello", &model()), None);
}

#[test]
fn test_vverhu_does_not_false_switch() {
    let ru = score_ru("вверху", &model()).unwrap();
    let en = score_en("ddth[e", &model()).unwrap();
    assert!(en - ru <= THRESHOLD_PER_BIGRAM, "en={} ru={}", en, ru);
}

#[test]
fn test_dvuh_does_not_false_switch() {
    let ru = score_ru("двух", &model()).unwrap();
    let en = score_en("lde[", &model()).unwrap();
    assert!(en - ru <= THRESHOLD_PER_BIGRAM, "en={} ru={}", en, ru);
}

#[test]
fn score_is_the_mean_surprisal() {
    let mut en = vec![0u64; 26 * 26];
    en[1] = 3_000_000_000; // a, then b
    en[26 + 2] = 4_000_000_000; // b, then c
    let flat = LanguageModel::new(
        en,
        vec![0; 32 * 32],
        vec![0; 40 * 40],
        WordSet::new(),
        WordSet::new(),
        WordSet::new(),
    )
    .unwrap();
    assert_eq!(score_en("abc", &flat), Some(-3_500_000_000));
    assert_eq!(score_en("ABC", &flat), Some(-3_500_000_000));
    // Two pairs with punctuation in them cost ten nats each.
    assert_eq!(score_en("ab;c", &flat), Some(-7_666_666_666));
    // Fewer than two letters: no score.
    assert_eq!(score_en("a;;;", &flat), None);
}

#[test]
fn yo_is_scored_as_ye() {
    assert_eq!(score_ru("всё", &model()), score_ru("все", &model()));
    assert_eq!(score_ru("ВСЁ", &model()), score_ru("все", &model()));
    assert!(score_ua("існування", &model()).is_some());
}

#[test]
fn model_refuses_tables_of_a_wrong_size() {
    let none = WordSet::new;
    let make = |en: usize, ru: usize, ua: usize| {
        LanguageModel::new(vec![1; en], vec![1; ru], vec![1; ua], none(), none(), none()).is_some()
    };
    assert!(make(676, 1024, 1600));
    assert!(!make(675, 1024, 1600));
    assert!(!make(676, 1025, 1600));
    assert!(!make(676, 1024, 0));
    let too_large = LanguageModel::new(
        vec![1_000_000_000_001; 676],
        vec![1; 1024],
        vec![1; 1600],
        none(),
        none(),
        none(),
    );
    assert!(too_large.is_none());
}

#[test]
fn pairs_are_counted_one_more_than_they_occur() {
    let t = build_table("Abc, abÀa", 0x61, 26);
    assert_eq!(t.counts.len(), 676);
    assert_eq!(t.counts[1], 3); // ab
    assert_eq!(t.counts[26 + 2], 2); // bc
    assert_eq!(t.counts[2 * 26], 2); // ca: what lies between does not count
    assert_eq!(t.counts[26], 2); // ba
    assert_eq!(t.counts[0], 1); // aa
    assert_eq!(t.total, 676 + 5);
    let empty = build_table("", 0x430, 32);
    assert_eq!(empty.total, 1024);
    assert!(empty.counts.iter().all(|&c| c == 1));
}

// -- Three languages --------------------------------------------------------------------

#[test]
fn buffer_push_increases_len() {
    let mut buf = WordBuffer::new();
    push_en_word(&mut buf, "abc");
    assert_eq!(buf.len(), 3);
}

#[test]
fn buffer_pop_removes_last() {
    let mut buf = WordBuffer::new();
    push_en_word(&mut buf, "abc");
    buf.pop();
    assert_eq!(buf.len(), 2);
}

#[test]
fn buffer_pop_on_empty_does_not_panic() {
    let mut buf = WordBuffer::new();
    buf.pop();
    assert!(buf.is_empty());
}

#[test]
fn buffer_clear_empties_buffer() {
    let mut buf = WordBuffer::new();
    push_en_word(&mut buf, "hello");
    buf.clear();
    assert!(buf.is_empty());
}

#[test]
fn short_word_auto_detect_returns_none() {
    let mut buf = WordBuffer::new();
    push_en_word(&mut buf, "abc");
    assert!(buf.detect_mismatch(LANG_RU, &model()).is_none());
    assert!(buf.detect_mismatch(LANG_EN, &model()).is_none());
    assert!(buf.detect_mismatch(LANG_UA, &model()).is_none());
}

#[test]
fn buffer_single_char_force_switch_returns_some() {
    let mut buf = WordBuffer::new();
    buf.push(0x48, false);
    assert!(buf.force_switch(LANG_RU, &model()).is_some());
    assert!(buf.force_switch(LANG_UA, &model()).is_some());
}

#[test]
fn buffer_empty_buffer_returns_none() {
    let buf = WordBuffer::new();
    assert!(buf.detect_mismatch(LANG_RU, &model()).is_none());
    assert!(buf.force_switch(LANG_EN, &model()).is_none());
}

#[test]
fn buffer_notepad_typed_in_ru_layout_switches_to_en() {
    let mut buf = WordBuffer::new();
    push_en_word(&mut buf, "notepad");
    let action = buf.detect_mismatch(LANG_RU, &model()).expect("should detect mismatch");
    assert_eq!(action.target_lang, LANG_EN);
    assert_eq!(action.new_word.to_lowercase(), "notepad");
    assert_eq!(action.backspaces, 7);
    assert!(!action.original_word.is_empty());
}

#[test]
fn buffer_ghbdtn_typed_in_en_layout_switches_to_ru_privet() {
    let mut buf = WordBuffer::new();
    push_en_word(&mut buf, "ghbdtn");
    let action = buf.detect_mismatch(LANG_EN, &model()).expect("should detect mismatch");
    assert_eq!(action.target_lang, LANG_RU);
    assert_eq!(action.new_word.to_lowercase(), "привет");
    assert_eq!(action.original_word.to_lowercase(), "ghbdtn");
}

#[test]
fn scyedfyyz_typed_in_en_layout_switches_to_ua_isnuvannya() {
    let mut buf = WordBuffer::new();
    push_en_chars(&mut buf, "scyedfyyz");
    let action = buf.detect_mismatch(LANG_EN, &model()).expect("should detect mismatch");
    assert_eq!(action.target_lang, LANG_UA);
    assert_eq!(action.new_word.to_lowercase(), "існування");
    assert_eq!(action.original_word.to_lowercase(), "scyedfyyz");
}

#[test]
fn buffer_hello_in_en_layout_does_not_switch() {
    let mut buf = WordBuffer::new();
    push_en_word(&mut buf, "hello");
    assert!(buf.detect_mismatch(LANG_EN, &model()).is_none());
}

#[test]
fn buffer_privet_in_ru_layout_does_not_switch() {
    let mut buf = WordBuffer::new();
    push_en_word(&mut buf, "ghbdtn");
    assert!(buf.detect_mismatch(LANG_RU, &model()).is_none());
}

#[test]
fn eto_typed_in_en_layout_switches_to_ru() {
    let mut buf = WordBuffer::new();
    buf.push(0xDE, false);
    buf.push(0x4E, false);
    buf.push(0x4A, false);
    let action = buf.detect_mismatch(LANG_EN, &model()).expect("should switch 'это' from EN to RU");
    assert_eq!(action.target_lang, LANG_RU);
    assert_eq!(action.new_word, "это");
}

#[test]
fn test_dictionary_sorting() {
    for window in COMMON_RU_SHORT.windows(2) {
        assert!(window[0] < window[1], "COMMON_RU_SHORT not sorted: {} >= {}", window[0], window[1]);
    }
    for window in COMMON_EN_SHORT.windows(2) {
        assert!(window[0] < window[1], "COMMON_EN_SHORT not sorted: {} >= {}", window[0], window[1]);
    }
    for window in COMMON_UA_SHORT.windows(2) {
        assert!(window[0] < window[1], "COMMON_UA_SHORT not sorted: {} >= {}", window[0], window[1]);
    }
}

#[test]
fn single_letter_words_switch() {
    let mut buf = WordBuffer::new();

    buf.push(0x44, false);
    let action = buf
        .detect_mismatch(LANG_EN, &model())
        .expect("single 'd' in EN layout should switch to RU 'в'");
    assert_eq!(action.target_lang, LANG_RU);
    assert_eq!(action.new_word, "в");
    buf.clear();

    buf.push(0x41, false);
    assert!(buf.detect_mismatch(LANG_EN, &model()).is_none());
    buf.clear();

    buf.push(0x41, false);
    let action = buf.detect_mismatch(LANG_RU, &model()).expect("should switch single char ф -> a");
    assert_eq!(action.target_lang, LANG_EN);
    assert_eq!(action.new_word, "a");
    buf.clear();
}

#[test]
fn technical_abbreviations_switch() {
    let mut buf = WordBuffer::new();

    buf.push(0x43, false);
    buf.push(0x4C, false);
    buf.push(0x49, false);
    let action = buf.detect_mismatch(LANG_RU, &model()).expect("should switch 'сдш' -> 'cli'");
    assert_eq!(action.target_lang, LANG_EN);
    assert_eq!(action.new_word, "cli");
    buf.clear();

    buf.push(0x56, false);
    buf.push(0x50, false);
    buf.push(0x4E, false);
    let action = buf.detect_mismatch(LANG_RU, &model()).expect("should switch 'мзт' -> 'vpn'");
    assert_eq!(action.target_lang, LANG_EN);
    assert_eq!(action.new_word, "vpn");
    buf.clear();

    buf.push(0x56, false);
    buf.push(0x42, false);
    buf.push(0x59, false);
    let action = buf.detect_mismatch(LANG_EN, &model()).expect("should switch 'vby' -> 'мин'");
    assert_eq!(action.target_lang, LANG_RU);
    assert_eq!(action.new_word, "мин");
    buf.clear();
}

#[test]
fn test_long_ru_words_switch() {
    let mut buf = WordBuffer::new();

    push_en_chars(&mut buf, "ekexitybz");
    let action = buf.detect_mismatch(LANG_EN, &model()).expect("should switch ekexitybz");
    assert_eq!(action.target_lang, LANG_RU);
    assert_eq!(action.new_word, "улучшения");
    buf.clear();

    push_en_chars(&mut buf, "hf,jnf");
    let action = buf.detect_mismatch(LANG_EN, &model()).expect("should switch hf,jnf");
    assert_eq!(action.target_lang, LANG_RU);
    assert_eq!(action.new_word, "работа");
    buf.clear();
}

#[test]
fn test_sensitivity_levels() {
    let candidates = &[("ghbdtn", LANG_EN), ("notepad", LANG_RU)];
    let m = model();
    let mut found = false;
    for &(word, lang) in candidates {
        let mut buf = WordBuffer::new();
        if lang == LANG_EN {
            push_en_chars(&mut buf, word);
        } else {
            push_en_word(&mut buf, word);
        }
        if buf.detect_mismatch_with_sensitivity(lang, ONE, &m).is_some() {
            assert!(buf.detect_mismatch_with_sensitivity(lang, 1_500_000, &m).is_some());

            let snap = buf.detection_snapshot(&m).unwrap();
            let diff = (snap.score_ru.unwrap() - snap.score_en.unwrap()).abs() as f64;
            let threshold = switching_threshold(snap.len) as f64;
            let s_low = (threshold / diff) * 0.8;
            let low = (s_low * 1e6) as i32;
            assert!(buf.detect_mismatch_with_sensitivity(lang, low, &m).is_none());
            found = true;
            break;
        }
    }
    assert!(found, "Could not find a test word satisfying sensitivity threshold.");
}

#[test]
fn test_case_inversion_correction() {
    let mut buf = WordBuffer::new();
    buf.push(0x47, false);
    buf.push(0x48, true);
    buf.push(0x42, true);
    buf.push(0x44, true);
    buf.push(0x54, true);
    buf.push(0x4E, true);
    let action = buf.detect_mismatch(LANG_EN, &model()).expect("should switch");
    assert_eq!(action.target_lang, LANG_RU);
    assert_eq!(action.new_word, "Привет");
}

#[test]
fn test_cross_cyrillic_switching() {
    let mut buf = WordBuffer::new();
    push_en_chars(&mut buf, "scyedfyyz");
    let action = buf.detect_mismatch(LANG_RU, &model()).expect("should cross-switch RU -> UA");
    assert_eq!(action.target_lang, LANG_UA);
    assert_eq!(action.new_word, "існування");
    buf.clear();

    push_en_chars(&mut buf, "'nj");
    let action = buf.detect_mismatch(LANG_UA, &model()).expect("should cross-switch UA -> RU");
    assert_eq!(action.target_lang, LANG_RU);
    assert_eq!(action.new_word, "это");
}

#[test]
fn repeated_key_does_not_switch() {
    let mut buf = WordBuffer::new();
    for _ in 0..5 {
        buf.push(0x4A, false);
    }
    assert!(buf.detect_mismatch(LANG_EN, &model()).is_none(), "repeated key must not switch");
    buf.clear();

    for _ in 0..5 {
        buf.push(0x4A, false);
    }
    assert!(buf.detect_mismatch(LANG_RU, &model()).is_none(), "repeated key in RU must not switch");
}

#[test]
fn jpeg_in_en_layout_does_not_switch() {
    let mut buf = WordBuffer::new();
    push_en_word(&mut buf, "jpeg");
    assert!(buf.detect_mismatch(LANG_EN, &model()).is_none(), "jpeg must not switch");
}

#[test]
fn nujno_with_punct_en_transliteration_switches_at_boundary() {
    let mut buf = WordBuffer::new();
    push_en_chars(&mut buf, "ye;yj");
    let action =
        buf.detect_mismatch(LANG_EN, &model()).expect("punct dict shortcut should switch нужно");
    assert_eq!(action.target_lang, LANG_RU);
    assert_eq!(action.new_word.to_lowercase(), "нужно");
    assert_eq!(action.backspaces, 5);
}

#[test]
fn nujno_with_punct_switches_on_the_fly() {
    let mut buf = WordBuffer::new();
    push_en_chars(&mut buf, "ye;yj");
    let action = buf
        .detect_mismatch_on_the_fly(LANG_EN, ONE, &model())
        .expect("punct dict shortcut should fire on-the-fly for нужно");
    assert_eq!(action.target_lang, LANG_RU);
    assert_eq!(action.new_word.to_lowercase(), "нужно");
    assert_eq!(action.backspaces, 4);
}

#[test]
fn wsl_in_ru_layout_switches_to_en() {
    let mut buf = WordBuffer::new();
    push_en_word(&mut buf, "wsl");
    let action =
        buf.detect_mismatch(LANG_RU, &model()).expect("wsl in RU layout should switch to EN");
    assert_eq!(action.target_lang, LANG_EN);
    assert_eq!(action.new_word, "wsl");
}

#[test]
fn bulk_in_ru_layout_switches_to_en() {
    let mut buf = WordBuffer::new();
    push_en_word(&mut buf, "bulk");
    let action =
        buf.detect_mismatch(LANG_RU, &model()).expect("bulk in RU layout should switch to EN");
    assert_eq!(action.target_lang, LANG_EN);
    assert_eq!(action.new_word, "bulk");
}

#[test]
fn po_in_en_layout_switches_to_ru() {
    let mut buf = WordBuffer::new();
    push_en_word(&mut buf, "gj");
    let action =
        buf.detect_mismatch(LANG_EN, &model()).expect("по in EN layout should switch to RU");
    assert_eq!(action.target_lang, LANG_RU);
    assert_eq!(action.new_word, "по");
}

#[test]
fn ne_in_en_layout_switches_to_ru() {
    let mut buf = WordBuffer::new();
    push_en_word(&mut buf, "yt");
    let action =
        buf.detect_mismatch(LANG_EN, &model()).expect("не in EN layout should switch to RU");
    assert_eq!(action.target_lang, LANG_RU);
    assert_eq!(action.new_word, "не");
}

#[test]
fn force_switch_uses_entry_lang_not_current_lang() {
    let mut buf = WordBuffer::new();
    buf.set_entry_lang(LANG_RU);
    push_en_word(&mut buf, "github");
    buf.has_switched = true;

    let action = buf.force_switch(LANG_EN, &model()).expect("should switch to EN using entry_lang");
    assert_eq!(action.target_lang, LANG_EN);
    assert_eq!(action.new_word, "github");
}

#[test]
fn force_switch_entry_lang_fallback_when_unset() {
    let mut buf = WordBuffer::new();
    push_en_word(&mut buf, "bulk");
    let action = buf.force_switch(LANG_RU, &model()).expect("fallback to active_lang=LANG_RU");
    assert_eq!(action.target_lang, LANG_EN);
    assert_eq!(action.new_word, "bulk");
}

#[test]
fn on_the_fly_switching() {
    let mut buf = WordBuffer::new();
    push_en_chars(&mut buf, "scyed");
    let action = buf
        .detect_mismatch_on_the_fly(LANG_EN, ONE, &model())
        .expect("should switch on-the-fly");
    assert_eq!(action.target_lang, LANG_UA);
    assert_eq!(action.backspaces, 4);
    assert_eq!(action.new_word, "існув");
}

#[test]
fn short_terms_switch_either_way() {
    for word in ["usb", "box", "ok", "wc", "git", "rl", "ats", "api", "pdf", "vat"] {
        let mut buf = WordBuffer::new();
        push_en_word(&mut buf, word);
        let action = buf.detect_mismatch(LANG_RU, &model()).expect("should switch to EN");
        assert_eq!(action.target_lang, LANG_EN);
        assert_eq!(action.new_word, word);
        assert!(buf.detect_mismatch(LANG_EN, &model()).is_none());
    }
    for (keys, word) in [("nd", "тв"), ("xth", "чер"), ("cv", "см"), ("hlc", "рдс"), ("ylc", "ндс")] {
        let mut buf = WordBuffer::new();
        push_en_word(&mut buf, keys);
        let action = buf.detect_mismatch(LANG_EN, &model()).expect("should switch to RU");
        assert_eq!(action.target_lang, LANG_RU);
        assert_eq!(action.new_word, word);
        assert!(buf.detect_mismatch(LANG_RU, &model()).is_none());
    }
}

#[test]
fn case_follows_the_keys() {
    let keys = |pattern: &str| -> Vec<Entry> {
        pattern.chars().map(|c: char| Entry { vk: 0x41, is_upper: c.is_uppercase() }).collect()
    };
    assert_eq!(apply_case_correction(&keys("aaaa"), "тест"), "тест");
    assert_eq!(apply_case_correction(&keys("AAAA"), "їґєі"), "ЇҐЄІ");
    assert_eq!(apply_case_correction(&keys("aAAA"), "їґєі"), "Їґєі");
    assert_eq!(apply_case_correction(&keys("aAaA"), "тест"), "тЕсТ");
}

#[test]
fn usb_short_word_boundary_switch() {
    let mut buf = WordBuffer::new();
    push_en_word(&mut buf, "usb");
    let action = buf.detect_mismatch(LANG_RU, &model()).expect("should detect mismatch for usb");
    assert_eq!(action.target_lang, LANG_EN);
    assert_eq!(action.new_word.to_lowercase(), "usb");
}

#[test]
fn long_word_on_the_fly_switch() {
    let mut buf = WordBuffer::new();
    push_en_word(&mut buf, "bacvkspace");
    let action = buf
        .detect_mismatch_on_the_fly(LANG_RU, ONE, &model())
        .expect("should switch on-the-fly for long word with RU marker");
    assert_eq!(action.target_lang, LANG_EN);
    assert_eq!(action.backspaces, 9);
    assert_eq!(action.new_word, "bacvkspace");
}

#[test]
fn sentence_case_preserved_on_switch() {
    let mut buf = WordBuffer::new();
    buf.push(0x47, true);
    buf.push(0x48, false);
    buf.push(0x42, false);
    buf.push(0x44, false);
    buf.push(0x54, false);
    buf.push(0x4E, false);
    let action = buf.detect_mismatch(LANG_EN, &model()).expect("should switch to RU");
    assert_eq!(action.target_lang, LANG_RU);
    assert_eq!(action.new_word, "Привет", "first letter must remain capitalised");
}

#[test]
fn context_suppresses_short_dict_switch() {
    let config = DetectionConfig { context_lang: Some(LANG_RU), ..DetectionConfig::default() };
    let mut buf = WordBuffer::new();
    push_en_chars(&mut buf, "ctrl");
    let (action, _) = buf.detect_with_snapshot(LANG_RU, ONE, &config, &model());
    assert!(action.is_none(), "context=RU must suppress dict switch for 'ctrl'");
}

#[test]
fn context_does_not_suppress_long_words() {
    let config = DetectionConfig { context_lang: Some(LANG_RU), ..DetectionConfig::default() };
    let mut buf = WordBuffer::new();
    push_en_chars(&mut buf, "function");
    let (action, _) = buf.detect_with_snapshot(LANG_RU, ONE, &config, &model());
    assert!(action.is_some(), "long EN word must still switch despite Cyrillic context");
    assert_eq!(action.unwrap().target_lang, LANG_EN);
}

#[test]
fn ctrl_switches_without_context() {
    let mut buf = WordBuffer::new();
    push_en_chars(&mut buf, "ctrl");
    let action = buf.detect_mismatch(LANG_RU, &model()).expect("a common English word");
    assert_eq!(action.target_lang, LANG_EN);
    assert_eq!(action.original_word, "секд");
}

#[test]
fn ignored_words_are_left_alone() {
    let mut buf = WordBuffer::new();
    push_en_word(&mut buf, "ghbdtn");
    let mut config = DetectionConfig::default();
    config.word_corrections.insert("ghbdtn".to_string(), LANG_UA);
    let (action, snap) = buf.detect_with_snapshot(LANG_EN, ONE, &config, &model());
    assert_eq!(action.unwrap().target_lang, LANG_UA);
    assert_eq!(snap.unwrap().ua_word, "привет");
    config.ignored_words.insert("ghbdtn".to_string());
    let (action, snap) = buf.detect_with_snapshot(LANG_EN, ONE, &config, &model());
    assert!(action.is_none());
    assert!(snap.is_some());
}

#[test]
fn corrections_beat_the_dictionary() {
    let mut buf = WordBuffer::new();
    push_en_word(&mut buf, "hello");
    let mut config = DetectionConfig::default();
    config.word_corrections.insert("hello".to_string(), LANG_RU);
    let (action, _) = buf.detect_with_snapshot(LANG_EN, ONE, &config, &model());
    let action = action.expect("the correction wins");
    assert_eq!(action.target_lang, LANG_RU);
    assert_eq!(action.new_word, "руддщ");
    assert_eq!(action.original_word, "hello");
    // The correction is for the active layout already: the dictionary word stays.
    config.word_corrections.insert("hello".to_string(), LANG_EN);
    assert!(buf.detect_with_snapshot(LANG_EN, ONE, &config, &model()).0.is_none());
    // A correction within one language keeps the language.
    let (action, _) = buf.detect_with_snapshot(0x0809, ONE, &config, &model());
    assert_eq!(action.unwrap().target_lang, LANG_EN);
}

#[test]
fn other_layouts_are_left_alone() {
    let mut buf = WordBuffer::new();
    push_en_word(&mut buf, "ghbdtn");
    assert!(buf.detect_mismatch(0x0407, &model()).is_none());
    assert!(buf.force_switch(0x0407, &model()).is_none());
    assert!(buf.detect_mismatch(0, &model()).is_none());
}

#[test]
fn switched_words_are_left_alone() {
    let mut buf = WordBuffer::new();
    push_en_word(&mut buf, "ghbdtn");
    buf.has_switched = true;
    let (action, snap) = buf.detect_with_snapshot(LANG_EN, ONE, &DetectionConfig::default(), &model());
    assert!(action.is_none());
    assert!(snap.is_none());
    buf.clear();
    assert!(!buf.has_switched);
}

#[test]
fn four_keys_are_enough_on_the_fly() {
    let mut config = DetectionConfig::default();
    config.word_corrections.insert("ghbd".to_string(), LANG_RU);
    config.word_corrections.insert("ghb".to_string(), LANG_RU);
    let mut buf = WordBuffer::new();
    push_en_word(&mut buf, "ghb");
    let (action, snap) = buf.detect_on_the_fly_with_snapshot(LANG_EN, ONE, &config, &model());
    assert!(action.is_none() && snap.is_none());
    push_en_word(&mut buf, "d");
    let (action, snap) = buf.detect_on_the_fly_with_snapshot(LANG_EN, ONE, &config, &model());
    let action = action.unwrap();
    assert_eq!((action.backspaces, action.new_word.as_str()), (3, "прив"));
    assert_eq!((action.target_lang, action.original_word.as_str()), (LANG_RU, "ghbd"));
    assert_eq!(snap.unwrap().len, 4);
    // The scores are asked from four keys on, too.
    let ask = |gap: i64| {
        let s = reading("scye", "ысну", "існу", [Some(-9_000_000_000), None, Some(-9_000_000_000 + gap)]);
        decide(&s, Shape::Plain, LANG_EN, ONE, true, &DetectionConfig::default(), &model())
    };
    assert_eq!(ask(1_950_000_000), None);
    assert_eq!(ask(1_950_000_001), Some(LANG_UA));
}

#[test]
fn words_known_elsewhere_need_no_scores() {
    let mut buf = WordBuffer::new();
    push_en_word(&mut buf, "inere");
    for sensitivity in [0, 1, ONE] {
        let action =
            buf.detect_mismatch_with_sensitivity(LANG_EN, sensitivity, &model()).expect("known");
        assert_eq!((action.target_lang, action.new_word.as_str()), (LANG_RU, "штуку"));
        assert_eq!((action.backspaces, action.original_word.as_str()), (5, "inere"));
    }
    // While it is being typed, the scores count.
    assert!(buf.detect_mismatch_on_the_fly(LANG_EN, 0, &model()).is_none());
    // Ukrainian words are known as well, and the length does not matter.
    buf.clear();
    push_en_word(&mut buf, "scyedfyyz");
    let action = buf.detect_mismatch_with_sensitivity(LANG_EN, 0, &model()).expect("known");
    assert_eq!((action.target_lang, action.new_word.as_str()), (LANG_UA, "існування"));
    // An English word stays, wherever else it is known.
    let s = reading("hello", "нужно", "нужно", [None, None, None]);
    assert_eq!(decide(&s, Shape::Plain, LANG_EN, ONE, false, &DetectionConfig::default(), &model()), None);
}

#[test]
fn identifiers_are_left_alone_in_english() {
    let m = model();
    for word in ["GhbdtnVbh", "ghbdtnVbh", "ekExitybz", "iNere"] {
        let mut buf = WordBuffer::new();
        push_en_word(&mut buf, word);
        assert!(buf.detect_mismatch(LANG_EN, &m).is_none(), "{}", word);
        assert!(buf.detect_mismatch_on_the_fly(LANG_EN, ONE, &m).is_none(), "{}", word);
        // The hotkey still works, and so does what it has taught.
        assert!(buf.force_switch(LANG_EN, &m).is_some());
        let mut config = DetectionConfig::default();
        config.word_corrections.insert(word.to_lowercase(), LANG_RU);
        let (action, _) = buf.detect_with_snapshot(LANG_EN, ONE, &config, &m);
        assert_eq!(action.unwrap().target_lang, LANG_RU);
    }
    // Sentence case, capitals and an inverted Caps Lock are no identifiers.
    for word in ["Inere", "INERE", "iNERE"] {
        let mut buf = WordBuffer::new();
        push_en_word(&mut buf, word);
        assert!(buf.detect_mismatch(LANG_EN, &m).is_some(), "{}", word);
    }
}

#[test]
fn identifiers_are_switched_in_cyrillic() {
    let m = model();
    for word in ["qzjQzj", "getName", "iPho"] {
        let mut buf = WordBuffer::new();
        push_en_word(&mut buf, word);
        for lang in [LANG_RU, LANG_UA] {
            let action = buf.detect_mismatch_with_sensitivity(lang, 0, &m).expect("identifier");
            assert_eq!((action.target_lang, action.new_word.as_str()), (LANG_EN, word));
            assert!(buf.detect_mismatch_on_the_fly(lang, 0, &m).is_some());
        }
    }
    // Three keys are too few.
    let mut buf = WordBuffer::new();
    push_en_word(&mut buf, "qZj");
    assert!(buf.detect_mismatch(LANG_RU, &m).is_none());
}

#[test]
fn parts_of_names_with_underscores() {
    let m = model();
    // In English they stay, whatever dictionaries and scores say.
    for word in ["inere", "ekexitybz", "gj", "d"] {
        let mut buf = WordBuffer::new();
        push_en_word(&mut buf, word);
        assert!(buf.detect_mismatch(LANG_EN, &m).is_some(), "{}", word);
        buf.in_snake_case = true;
        assert!(buf.detect_mismatch(LANG_EN, &m).is_none(), "{}", word);
        assert!(buf.detect_mismatch_on_the_fly(LANG_EN, ONE, &m).is_none(), "{}", word);
        let mut config = DetectionConfig::default();
        config.word_corrections.insert(word.to_string(), LANG_RU);
        let (action, _) = buf.detect_with_snapshot(LANG_EN, ONE, &config, &m);
        assert_eq!(action.unwrap().target_lang, LANG_RU);
        buf.clear();
        assert!(!buf.in_snake_case);
    }
    // In Cyrillic they are switched, however short, but for common words.
    for word in ["qzj", "zx", "qzjqzj"] {
        let mut buf = WordBuffer::new();
        push_en_word(&mut buf, word);
        assert!(buf.detect_mismatch_with_sensitivity(LANG_RU, 0, &m).is_none(), "{}", word);
        buf.in_snake_case = true;
        for lang in [LANG_RU, LANG_UA] {
            let action = buf.detect_mismatch_with_sensitivity(lang, 0, &m).expect("name");
            assert_eq!((action.target_lang, action.new_word.as_str()), (LANG_EN, word));
        }
    }
    let mut buf = WordBuffer::new();
    push_en_word(&mut buf, "inere");
    buf.in_snake_case = true;
    assert!(buf.detect_mismatch(LANG_RU, &m).is_none());
}

#[test]
fn impossible_pairs_are_switched_at_once() {
    let m = model();
    // "аь", "ьь" within a word, "уь" at its end, and in a word of two keys.
    for (keys, ru) in [("rfmn", "каьт"), ("nmmr", "тььк"), ("them", "еруь"), ("fm", "аь")] {
        let mut buf = WordBuffer::new();
        push_en_word(&mut buf, keys);
        assert!(has_impossible_pair(ru));
        for lang in [LANG_RU, LANG_UA] {
            let action = buf.detect_mismatch_with_sensitivity(lang, 0, &m).expect("impossible");
            assert_eq!((action.target_lang, action.new_word.as_str()), (LANG_EN, keys));
            assert_eq!(action.original_word, ru);
        }
        let fly = buf.detect_mismatch_on_the_fly(LANG_RU, 0, &m);
        assert_eq!(fly.is_some(), keys.len() >= 4);
        let mut config = DetectionConfig::default();
        config.ignored_words.insert(ru.to_string());
        assert!(buf.detect_with_snapshot(LANG_RU, ONE, &config, &m).0.is_none());
    }
    assert!(has_impossible_pair("їь") && has_impossible_pair("ёь"));
    assert!(!has_impossible_pair("путь") && !has_impossible_pair("ьа") && !has_impossible_pair(""));
}

#[test]
fn punctuation_at_the_end_does_not_count() {
    let m = model();
    for tail in [".", ",", ";'", "[]", "1"] {
        let word = format!("hello{}", tail);
        assert_eq!(score_en(&word, &m), score_en("hello", &m));
        let word = format!("привет{}", tail);
        assert_eq!(score_ru(&word, &m), score_ru("привет", &m));
        let word = format!("питання{}", tail);
        assert_eq!(score_ua(&word, &m), score_ua("питання", &m));
    }
    // Within a word it does, and at its start.
    assert!(score_en("hel.lo", &m) < score_en("hello", &m));
    assert!(score_en(".hello", &m) < score_en("hello", &m));
    assert_eq!(score_en("a.", &m), None);
    assert_eq!(score_en("...", &m), None);
}

#[test]
fn untranslatable_keys_are_left_alone() {
    let mut buf = WordBuffer::new();
    push_en_chars(&mut buf, "ghb\\dtn");
    assert!(buf.detect_mismatch(LANG_EN, &model()).is_none());
    assert!(buf.force_switch(LANG_EN, &model()).is_none());
    assert!(buf.force_switch(LANG_RU, &model()).is_none());
}

#[test]
fn forced_switch_round_trips_with_capitals() {
    let mut buf = WordBuffer::new();
    push_en_word(&mut buf, "gHbDtN");
    let there = buf.force_switch(LANG_EN, &model()).unwrap();
    assert_eq!(there.target_lang, LANG_RU);
    assert_eq!(there.new_word, "пРиВеТ");
    assert_eq!(there.original_word, "gHbDtN");
    let back = buf.force_switch(there.target_lang, &model()).unwrap();
    assert_eq!(back.new_word, "gHbDtN");
    assert_eq!(back.original_word, "пРиВеТ");
    assert_eq!(back.backspaces, 6);
}

#[test]
fn forced_switch_follows_the_preference() {
    let mut buf = WordBuffer::new();
    push_en_word(&mut buf, "ghbdtn");
    let mut config = DetectionConfig::default();
    config.preferred_cyrillic = PreferredCyrillic::Ua;
    let action = buf.force_switch_with_config(LANG_EN, &config, &model()).unwrap();
    assert_eq!(action.target_lang, LANG_UA);
    config.preferred_cyrillic = PreferredCyrillic::Ru;
    let action = buf.force_switch_with_config(LANG_EN, &config, &model()).unwrap();
    assert_eq!(action.target_lang, LANG_RU);
    // Automatically the marked word goes to Ukrainian, where it is known.
    buf.clear();
    push_en_chars(&mut buf, "scyedfyyz");
    let action = buf.force_switch(LANG_EN, &model()).unwrap();
    assert_eq!(action.target_lang, LANG_UA);
    config.preferred_cyrillic = PreferredCyrillic::Ru;
    let action = buf.force_switch_with_config(LANG_EN, &config, &model()).unwrap();
    assert_eq!(action.target_lang, LANG_RU);
    assert_eq!(action.new_word, "ыснування");
}

#[test]
fn entry_lang_is_noted_once() {
    let mut buf = WordBuffer::new();
    buf.set_entry_lang(LANG_RU);
    push_en_word(&mut buf, "bulk");
    buf.set_entry_lang(LANG_EN);
    assert_eq!(buf.force_switch(LANG_EN, &model()).unwrap().target_lang, LANG_EN);
    buf.clear();
    push_en_word(&mut buf, "ghbdtn");
    assert_eq!(buf.force_switch(LANG_EN, &model()).unwrap().target_lang, LANG_RU);
}

#[test]
fn higher_sensitivity_only_adds_switches() {
    let m = model();
    for word in ["ghbdtn", "notepad", "scyedfyyz", "function", "ekexitybz", "vbhys"] {
        let mut buf = WordBuffer::new();
        push_en_word(&mut buf, word);
        for lang in [LANG_EN, LANG_RU, LANG_UA] {
            let mut before = false;
            for s in [1, 100_000, 500_000, ONE, 1_500_000, 3_000_000] {
                let now = buf.detect_mismatch_with_sensitivity(lang, s, &m).is_some();
                assert!(now || !before, "{} {:#06x} {}", word, lang, s);
                before = now;
            }
        }
    }
}

#[test]
fn sensitivity_of_zero_switches_nothing_by_statistics() {
    let mut buf = WordBuffer::new();
    push_en_chars(&mut buf, "ghbdtn");
    assert!(buf.detect_mismatch_with_sensitivity(LANG_EN, 0, &model()).is_none());
}

fn reading(en: &str, ru: &str, ua: &str, scores: [Option<i64>; 3]) -> DetectionSnapshot {
    DetectionSnapshot {
        en_word: en.to_string(),
        ru_word: ru.to_string(),
        ua_word: ua.to_string(),
        score_en: scores[0],
        score_ru: scores[1],
        score_ua: scores[2],
        len: en.chars().count(),
    }
}

#[test]
fn gap_must_exceed_the_bar() {
    let m = model();
    let config = DetectionConfig::default();
    // Six keys: the bar is one nat.
    let at = |gap: i64| {
        let s = reading("ghbdtr", "привек", "привек", [Some(-9_000_000_000), Some(-9_000_000_000 + gap), None]);
        decide(&s, Shape::Plain, LANG_EN, ONE, false, &config, &m)
    };
    assert_eq!(at(1_000_000_000), None);
    assert_eq!(at(1_000_000_001), Some(LANG_RU));
    // In context three tenths more.
    let context = DetectionConfig { context_lang: Some(LANG_EN), ..DetectionConfig::default() };
    let in_context = |gap: i64| {
        let s = reading("ghbdtr", "привек", "привек", [Some(-9_000_000_000), Some(-9_000_000_000 + gap), None]);
        decide(&s, Shape::Plain, LANG_EN, ONE, false, &context, &m)
    };
    assert_eq!(in_context(1_300_000_000), None);
    assert_eq!(in_context(1_300_000_001), Some(LANG_RU));
}

#[test]
fn letters_of_one_language_lower_the_bar() {
    let m = model();
    let config = DetectionConfig::default();
    let at = |gap: i64| {
        let s = reading("scyedf", "ыснува", "існува", [Some(-9_000_000_000), None, Some(-9_000_000_000 + gap)]);
        decide(&s, Shape::Plain, LANG_EN, ONE, false, &config, &m)
    };
    assert_eq!(at(700_000_000), None);
    // A missing Russian score says nothing for Russian.
    assert_eq!(at(700_000_001), Some(LANG_UA));
    // On the fly the bar is higher: thirteen tenths.
    let fly = |gap: i64| {
        let s = reading("scyedf", "ыснува", "існува", [Some(-9_000_000_000), None, Some(-9_000_000_000 + gap)]);
        decide(&s, Shape::Plain, LANG_EN, ONE, true, &config, &m)
    };
    assert_eq!(fly(1_300_000_000), None);
    assert_eq!(fly(1_300_000_001), Some(LANG_UA));
}

#[test]
fn leaving_cyrillic_takes_more_for_marked_words() {
    let m = model();
    let config = DetectionConfig::default();
    let ask = |ru: &str, ua: &str, lang: u16, gap: i64, fly: bool| {
        let mut s = reading("xxxxxx", ru, ua, [Some(gap), Some(0), Some(0)]);
        s.len = 6;
        decide(&s, Shape::Plain, lang, ONE, fly, &config, &m)
    };
    assert_eq!(ask("стенда", "стенда", LANG_RU, 1_000_000_001, false), Some(LANG_EN));
    assert_eq!(ask("стенда", "стенда", LANG_RU, 1_000_000_000, false), None);
    assert_eq!(ask("быстро", "бістро", LANG_RU, 1_500_000_000, false), None);
    assert_eq!(ask("быстро", "бістро", LANG_RU, 1_500_000_001, false), Some(LANG_EN));
    assert_eq!(ask("быстро", "бістро", LANG_UA, 1_500_000_000, false), None);
    assert_eq!(ask("быстро", "бістро", LANG_UA, 1_500_000_001, false), Some(LANG_EN));
    assert_eq!(ask("стенда", "стенда", LANG_RU, 2_000_000_000, true), None);
    assert_eq!(ask("стенда", "стенда", LANG_RU, 2_000_000_001, true), Some(LANG_EN));
    assert_eq!(ask("быстро", "бістро", LANG_RU, 2_500_000_000, true), None);
    assert_eq!(ask("быстро", "бістро", LANG_RU, 2_500_000_001, true), Some(LANG_EN));
}

#[test]
fn forced_target_needs_no_scores() {
    let m = model();
    let config = DetectionConfig::default();
    let s = reading("zzzz", "яяяя", "яяяя", [None, None, None]);
    assert_eq!(decide_forced(&s, LANG_EN, &config, &m), Some(LANG_RU));
    assert_eq!(decide_forced(&s, LANG_RU, &config, &m), Some(LANG_EN));
    assert_eq!(decide_forced(&s, LANG_UA, &config, &m), Some(LANG_EN));
    assert_eq!(decide_forced(&s, 0x0407, &config, &m), None);
    // Both unscored and marked: nothing speaks for Russian.
    let s = reading("ssss", "ыыыы", "іііі", [None, None, None]);
    assert_eq!(decide_forced(&s, LANG_EN, &config, &m), Some(LANG_UA));
}

#[test]
fn preference_decides_between_russian_and_ukrainian() {
    assert_eq!(resolve_cyrillic_preference(PreferredCyrillic::Ru, true, "він", false), Some(true));
    assert_eq!(resolve_cyrillic_preference(PreferredCyrillic::Ru, false, "він", false), None);
    assert_eq!(resolve_cyrillic_preference(PreferredCyrillic::Ua, true, "для", true), Some(false));
    assert_eq!(resolve_cyrillic_preference(PreferredCyrillic::Auto, true, "для", false), Some(true));
    assert_eq!(resolve_cyrillic_preference(PreferredCyrillic::Auto, false, "для", true), None);
    assert_eq!(resolve_cyrillic_preference(PreferredCyrillic::Auto, true, "він", true), Some(true));
    assert_eq!(resolve_cyrillic_preference(PreferredCyrillic::Auto, true, "він", false), Some(false));
}

#[test]
fn short_words_of_both_languages() {
    // "для" is a short word of both languages.
    let mut buf = WordBuffer::new();
    push_en_chars(&mut buf, "lkz");
    let mut config = DetectionConfig::default();
    assert_eq!(buf.detect_mismatch(LANG_EN, &model()).unwrap().target_lang, LANG_RU);
    config.preferred_cyrillic = PreferredCyrillic::Ua;
    let (action, _) = buf.detect_with_snapshot(LANG_EN, ONE, &config, &model());
    assert_eq!(action.unwrap().target_lang, LANG_UA);
    // "від" is one of Ukrainian alone, and marked.
    buf.clear();
    push_en_chars(&mut buf, "dsl");
    assert_eq!(buf.detect_mismatch(LANG_EN, &model()).unwrap().target_lang, LANG_UA);
    config.preferred_cyrillic = PreferredCyrillic::Ru;
    assert!(buf.detect_with_snapshot(LANG_EN, ONE, &config, &model()).0.is_none());
    // Under the Russian layout it goes to Ukrainian too.
    assert_eq!(buf.detect_mismatch(LANG_RU, &model()).unwrap().target_lang, LANG_UA);
}

#[test]
fn letters_are_told_apart() {
    assert!(is_cyrillic_or_ua('я') && is_cyrillic_or_ua('Ґ') && is_cyrillic_or_ua('ё'));
    assert!(!is_cyrillic_or_ua('z') && !is_cyrillic_or_ua('\u{450}'));
    assert!(is_all_cyrillic("їжак") && !is_all_cyrillic("їж4к") && is_all_cyrillic(""));
    assert!(has_ua_markers("їжак") && !has_ua_markers("ёж"));
    assert!(has_ru_markers("съезд") && !has_ru_markers("їжак"));
    assert!(has_punctuation("a;b") && !has_punctuation("абв") && !has_punctuation("éß"));
}

#[test]
fn thresholds_fall_with_the_length() {
    let expected = [
        (0, 1_500_000_000),
        (4, 1_500_000_000),
        (5, 1_200_000_000),
        (6, 1_000_000_000),
        (7, 900_000_000),
        (8, 800_000_000),
        (30, 800_000_000),
    ];
    for (len, t) in expected {
        assert_eq!(switching_threshold(len), t);
    }
}

#[test]
fn case_is_taken_from_the_keys() {
    let keys = |pattern: &str| -> Vec<Entry> {
        pattern.chars().map(|c| Entry { vk: 0x41, is_upper: c == 'U' }).collect()
    };
    assert_eq!(apply_case_correction(&keys("UUUU"), "слон"), "СЛОН");
    assert_eq!(apply_case_correction(&keys("ULLL"), "слон"), "Слон");
    assert_eq!(apply_case_correction(&keys("LULU"), "слон"), "сЛоН");
    assert_eq!(apply_case_correction(&keys("LLLL"), "слон"), "слон");
    assert_eq!(apply_case_correction(&keys("LUUU"), "слон"), "Слон");
    assert_eq!(apply_case_correction(&keys("LU"), "ёж"), "ёЖ");
    assert_eq!(apply_case_correction(&keys(""), "слон"), "слон");
    // Upper and lower case beyond the keyboard come from the tables of Unicode.
    assert_eq!(apply_case_correction(&keys("LUUU"), "ßIÉx"), "SSiéx");
    assert_eq!(apply_case_correction(&keys("UU"), "éß"), "ÉS");
}

// -- Two languages --------------------------------------------------------------------------

#[test]
fn push_increases_len() {
    let mut buf = bilingual::buffer::WordBuffer::new();
    push_two(&mut buf, "abc");
    assert_eq!(buf.len(), 3);
}

#[test]
fn pop_removes_last() {
    let mut buf = bilingual::buffer::WordBuffer::new();
    push_two(&mut buf, "abc");
    buf.pop();
    assert_eq!(buf.len(), 2);
}

#[test]
fn pop_on_empty_does_not_panic() {
    let mut buf = bilingual::buffer::WordBuffer::new();
    buf.pop();
    assert!(buf.is_empty());
}

#[test]
fn clear_empties_buffer() {
    let mut buf = bilingual::buffer::WordBuffer::new();
    push_two(&mut buf, "hello");
    buf.clear();
    assert!(buf.is_empty());
}

#[test]
fn single_char_auto_detect_returns_none() {
    let mut buf = bilingual::buffer::WordBuffer::new();
    buf.push(0x48, false);
    assert!(buf.detect_mismatch(LANG_RU, &model()).is_none());
    assert!(buf.detect_mismatch(LANG_EN, &model()).is_none());
}

#[test]
fn single_char_force_switch_returns_some() {
    let mut buf = bilingual::buffer::WordBuffer::new();
    buf.push(0x48, false);
    assert!(buf.force_switch(LANG_RU, &model()).is_some());
}

#[test]
fn empty_buffer_returns_none() {
    let buf = bilingual::buffer::WordBuffer::new();
    assert!(buf.detect_mismatch(LANG_RU, &model()).is_none());
    assert!(buf.force_switch(LANG_EN, &model()).is_none());
}

#[test]
fn notepad_typed_in_ru_layout_switches_to_en() {
    let mut buf = bilingual::buffer::WordBuffer::new();
    push_two(&mut buf, "notepad");
    let action = buf.detect_mismatch(LANG_RU, &model()).expect("should detect mismatch");
    assert!(!action.to_ru, "must switch to EN");
    assert_eq!(action.new_word.to_lowercase(), "notepad");
    assert_eq!(action.backspaces, 7);
    assert!(!action.original_word.is_empty());
    assert!(action.original_word.chars().all(bilingual::buffer::is_cyrillic));
}

#[test]
fn ghbdtn_typed_in_en_layout_switches_to_ru_privet() {
    let mut buf = bilingual::buffer::WordBuffer::new();
    push_two(&mut buf, "ghbdtn");
    let action = buf.detect_mismatch(LANG_EN, &model()).expect("should detect mismatch");
    assert!(action.to_ru, "must switch to RU");
    assert_eq!(action.new_word.to_lowercase(), "привет");
    assert_eq!(action.original_word.to_lowercase(), "ghbdtn");
}

#[test]
fn hello_in_en_layout_does_not_switch() {
    let mut buf = bilingual::buffer::WordBuffer::new();
    push_two(&mut buf, "hello");
    assert!(
        buf.detect_mismatch(LANG_EN, &model()).is_none(),
        "should NOT switch a real English word"
    );
}

#[test]
fn privet_in_ru_layout_does_not_switch() {
    let mut buf = bilingual::buffer::WordBuffer::new();
    push_two(&mut buf, "ghbdtn");
    assert!(
        buf.detect_mismatch(LANG_RU, &model()).is_none(),
        "should NOT switch a real Russian word typed in RU layout"
    );
}

#[test]
fn switch_preserves_capitalisation() {
    let mut buf = bilingual::buffer::WordBuffer::new();
    push_two(&mut buf, "Notepad");
    let action = buf.detect_mismatch(LANG_RU, &model()).expect("should switch");
    let mut chars = action.new_word.chars();
    let first = chars.next().unwrap();
    assert!(first.is_uppercase(), "first char should be uppercase, got '{}'", first);
}

#[test]
fn snapshot_is_none_for_empty_buffer() {
    let buf = bilingual::buffer::WordBuffer::new();
    assert!(buf.detection_snapshot(&model()).is_none());
}

#[test]
fn snapshot_contains_correct_words() {
    let mut buf = bilingual::buffer::WordBuffer::new();
    push_two(&mut buf, "notepad");
    let snap = buf.detection_snapshot(&model()).unwrap();
    assert_eq!(snap.en_word, "notepad");
    assert_eq!(snap.ru_word, "тщеузфв");
    assert_eq!(snap.len, 7);
    assert!(
        snap.score_en > snap.score_ru,
        "EN score {:?} should beat RU score {:?} for 'notepad' VK sequence",
        snap.score_en,
        snap.score_ru
    );
}

#[test]
fn punctuation_is_no_english_word_of_two_languages() {
    let mut buf = bilingual::buffer::WordBuffer::new();
    // The keys of "жук" under the English layout.
    buf.push(0xBA, false);
    buf.push(0x45, false);
    buf.push(0x52, false);
    assert!(buf.detect_mismatch(LANG_EN, &model()).is_none());
    // Nothing but punctuation has no English score at all: it stays as well.
    buf.clear();
    buf.push(0xBA, false);
    buf.push(0xBC, false);
    assert!(buf.detect_mismatch(LANG_EN, &model()).is_none());
}
