use markov_bot::chain_info::{spoken, weigh, ChainInfo, Exhausted, Verdict, MAX_DRAWS};

fn fresh(id: i64, now: u64) -> ChainInfo {
    let (entry, purge) = ChainInfo::new(id, Ok(None), now).unwrap();
    assert!(!purge);
    entry
}

#[test]
fn a_new_entry_is_empty_and_learning() {
    let entry = fresh(5, 100);
    assert_eq!(entry.chat_id(), 5);
    assert!(entry.is_learning());
    assert!(entry.is_empty());
    assert_eq!(entry.last_accessed(), 100);
    let direct = ChainInfo::empty(6, 7);
    assert_eq!(direct.chat_id(), 6);
    assert!(direct.is_empty());
    assert_eq!(direct.last_accessed(), 7);
}

#[test]
fn a_store_failure_is_handed_on() {
    let res = ChainInfo::new(5, Err("store is down".to_string()), 100);
    assert_eq!(res.err(), Some("store is down".to_string()));
}

#[test]
fn an_empty_model_says_so() {
    let mut entry = fresh(5, 100);
    assert_eq!(entry.generate("", 101), Ok("[no phrases learnt]".to_string()));
    assert_eq!(entry.generate("anything", 102), Ok("[no phrases learnt]".to_string()));
    assert_eq!(entry.last_accessed(), 102);
}

#[test]
fn a_fed_model_repeats_its_only_line() {
    let mut entry = fresh(5, 100);
    entry.feed("good morning everyone", 101);
    assert!(!entry.is_empty());
    for _ in 0..20 {
        assert_eq!(entry.generate("", 102), Ok("good morning everyone".to_string()));
        assert_eq!(entry.gen_loop(), Ok("good morning everyone".to_string()));
    }
}

#[test]
fn a_seed_anchors_the_phrase() {
    let mut entry = fresh(5, 100);
    entry.feed("hello world\nsee you there", 101);
    for _ in 0..20 {
        assert_eq!(entry.generate("you", 102), Ok("you there".to_string()));
        assert_eq!(entry.generate("world", 102), Ok("world".to_string()));
    }
}

#[test]
fn an_unknown_seed_falls_back_to_a_free_phrase() {
    let mut entry = fresh(5, 100);
    entry.feed("hello world", 101);
    for _ in 0..20 {
        assert_eq!(entry.generate("nowhere", 102), Ok("hello world".to_string()));
        assert_eq!(entry.generate("hello world", 102), Ok("hello world".to_string()));
    }
}

#[test]
fn phrases_are_never_blank() {
    let mut entry = fresh(5, 100);
    entry.feed("a  b\n\u{a0}c\u{a0}\n\td e f\n-", 101);
    for i in 0..200 {
        match entry.generate("", 102 + i) {
            Ok(phrase) => assert!(!phrase.trim().is_empty()),
            Err(exhausted) => assert_eq!(exhausted, Exhausted { draws: 10 }),
        }
    }
}

#[test]
fn each_line_is_learned_on_its_own() {
    let mut entry = fresh(5, 100);
    entry.feed("alpha beta\ngamma delta", 101);
    let mut seen_first = false;
    let mut seen_second = false;
    for _ in 0..400 {
        let phrase = entry.generate("", 102).unwrap();
        assert!(phrase == "alpha beta" || phrase == "gamma delta", "{}", phrase);
        seen_first = seen_first || phrase == "alpha beta";
        seen_second = seen_second || phrase == "gamma delta";
    }
    assert!(seen_first && seen_second);
}

#[test]
fn toggling_says_what_it_did_and_comes_back() {
    let mut entry = fresh(5, 100);
    assert_eq!(entry.toggle_learning(101), "[learning disabled]");
    assert!(!entry.is_learning());
    assert_eq!(entry.toggle_learning(102), "[learning enabled]");
    assert!(entry.is_learning());
}

#[test]
fn nothing_is_learned_while_learning_is_off() {
    let mut entry = fresh(5, 100);
    entry.feed("only this", 101);
    entry.toggle_learning(102);
    entry.feed("never that", 103);
    assert_eq!(entry.last_accessed(), 103);
    entry.toggle_learning(104);
    for _ in 0..50 {
        assert_eq!(entry.generate("", 105), Ok("only this".to_string()));
    }
    let mut silent = fresh(6, 100);
    silent.toggle_learning(101);
    silent.feed("unheard", 102);
    assert!(silent.is_empty());
    assert_eq!(silent.persist(), None);
}

#[test]
fn last_access_always_moves_forward() {
    let mut entry = fresh(5, 100);
    entry.feed("x", 200);
    assert_eq!(entry.last_accessed(), 200);
    entry.feed("y", 200);
    assert_eq!(entry.last_accessed(), 201);
    entry.generate("", 50).unwrap();
    assert_eq!(entry.last_accessed(), 202);
    entry.toggle_learning(202);
    assert_eq!(entry.last_accessed(), 203);
    entry.clear_data(1_000);
    assert_eq!(entry.last_accessed(), 1_000);
    entry.feed("z", u64::MAX);
    assert_eq!(entry.last_accessed(), u64::MAX);
    entry.feed("z", 3);
    assert_eq!(entry.last_accessed(), u64::MAX);
}

#[test]
fn clearing_forgets_and_enables_learning() {
    let mut entry = fresh(5, 100);
    entry.feed("to be forgotten", 101);
    entry.toggle_learning(102);
    entry.clear_data(103);
    assert!(entry.is_empty());
    assert!(entry.is_learning());
    assert_eq!(entry.persist(), None);
    assert_eq!(entry.generate("", 104), Ok("[no phrases learnt]".to_string()));
    entry.feed("new words", 105);
    assert_eq!(entry.generate("", 106), Ok("new words".to_string()));
}

#[test]
fn an_empty_model_is_never_persisted() {
    let entry = fresh(5, 100);
    assert_eq!(entry.persist(), None);
}

#[test]
fn the_record_has_the_bincode_layout() {
    let mut entry = fresh(7, 1);
    entry.feed("a b", 5);
    let expected: Vec<u8> = vec![
        1, 0, 0, 0, 0, 0, 0, 0, // one line
        3, 0, 0, 0, 0, 0, 0, 0, b'a', b' ', b'b', // its text
        7, 0, 0, 0, 0, 0, 0, 0, // the id
        1, // learning
        5, 0, 0, 0, 0, 0, 0, 0, // last access
    ];
    assert_eq!(entry.get_bincode(), expected);
    assert_eq!(entry.persist(), Some(expected));
}

#[test]
fn a_record_restores_the_entry() {
    let mut entry = fresh(-9, 1);
    entry.feed("je suis ici\nestán allí", 2);
    entry.toggle_learning(3);
    let bytes = entry.persist().unwrap();
    let (mut back, purge) = ChainInfo::new(-9, Ok(Some(bytes.clone())), 77).unwrap();
    assert!(!purge);
    assert_eq!(back.chat_id(), -9);
    assert!(!back.is_learning());
    assert!(!back.is_empty());
    assert_eq!(back.last_accessed(), 77);
    for _ in 0..50 {
        let phrase = back.generate("", 78).unwrap();
        assert!(phrase == "je suis ici" || phrase == "están allí", "{}", phrase);
    }
    assert_eq!(back.generate("están", 79), Ok("están allí".to_string()));
    let mut again = back.persist().unwrap();
    let n = again.len();
    again[n - 8..].copy_from_slice(&3u64.to_le_bytes());
    assert_eq!(again, bytes);
}

#[test]
fn corrupt_bytes_give_a_fresh_entry_and_are_purged() {
    let (entry, purge) = ChainInfo::new(5, Ok(Some(vec![1, 2, 3])), 9).unwrap();
    assert!(purge);
    assert!(entry.is_empty());
    assert!(entry.is_learning());
    assert_eq!(entry.chat_id(), 5);
    assert_eq!(entry.last_accessed(), 9);
    let (entry, purge) = ChainInfo::new(5, Ok(Some(Vec::new())), 9).unwrap();
    assert!(purge);
    assert!(entry.is_empty());
}

#[test]
fn a_record_is_taken_under_the_id_asked_for() {
    let mut entry = fresh(7, 1);
    entry.feed("mine", 2);
    entry.toggle_learning(3);
    let bytes = entry.persist().unwrap();
    let (mut other, purge) = ChainInfo::new(8, Ok(Some(bytes)), 4).unwrap();
    assert!(!purge);
    assert_eq!(other.chat_id(), 8);
    assert!(!other.is_learning());
    assert_eq!(other.last_accessed(), 4);
    assert_eq!(other.generate("", 5), Ok("mine".to_string()));
    let again = other.persist().unwrap();
    assert_eq!(again[again.len() - 17..again.len() - 9], 8i64.to_le_bytes());
}

#[test]
fn verdicts_on_phrases() {
    assert_eq!(MAX_DRAWS, 10);
    assert_eq!(weigh("word", 1), Verdict::Accept);
    assert_eq!(weigh("word", 10), Verdict::Accept);
    assert_eq!(weigh("", 1), Verdict::Again);
    assert_eq!(weigh(" \t", 9), Verdict::Again);
    assert_eq!(weigh(" ", 10), Verdict::GiveUp);
    assert_eq!(weigh("", 11), Verdict::GiveUp);
}

#[test]
fn an_anchored_phrase_begins_with_its_token() {
    let mut entry = fresh(5, 100);
    entry.feed("hello world\nhello there\nwell hello", 101);
    for _ in 0..100 {
        let phrase = entry.gen_from("hello").unwrap();
        assert!(phrase.starts_with("hello"), "{}", phrase);
        assert!(phrase == "hello" || phrase == "hello world" || phrase == "hello there");
    }
    assert_eq!(entry.gen_from("absent"), None);
    assert_eq!(entry.gen_from("hello "), None);
}

fn record_of_one_line(line: &str, id: i64, learning: bool, last: u64) -> Vec<u8> {
    let mut bytes = Vec::new();
    bytes.extend_from_slice(&1u64.to_le_bytes());
    bytes.extend_from_slice(&(line.len() as u64).to_le_bytes());
    bytes.extend_from_slice(line.as_bytes());
    bytes.extend_from_slice(&id.to_le_bytes());
    bytes.push(if learning { 1 } else { 0 });
    bytes.extend_from_slice(&last.to_le_bytes());
    bytes
}

#[test]
fn a_model_of_blank_phrases_is_given_up_after_ten_draws() {
    let bytes = record_of_one_line(" ", 5, true, 1);
    let (mut entry, purge) = ChainInfo::new(5, Ok(Some(bytes)), 2).unwrap();
    assert!(!purge);
    assert!(!entry.is_empty());
    assert_eq!(entry.gen_loop(), Err(Exhausted { draws: 10 }));
    assert_eq!(entry.generate("", 3), Err(Exhausted { draws: 10 }));
    assert_eq!(entry.generate("word", 4), Err(Exhausted { draws: 10 }));
    assert_eq!(entry.gen_from(""), None);
}

#[test]
fn a_hand_written_record_is_read() {
    let bytes = record_of_one_line("bonjour le monde", -3, false, 9);
    let (mut entry, purge) = ChainInfo::new(-3, Ok(Some(bytes.clone())), 20).unwrap();
    assert!(!purge);
    assert!(!entry.is_learning());
    assert_eq!(entry.last_accessed(), 20);
    assert_eq!(entry.generate("", 21), Ok("bonjour le monde".to_string()));
    let mut trailing = bytes;
    trailing.push(0);
    let (mut entry, purge) = ChainInfo::new(-3, Ok(Some(trailing)), 20).unwrap();
    assert!(!purge);
    assert_eq!(entry.generate("le", 21), Ok("le monde".to_string()));
}

#[test]
fn a_record_cut_short_or_ill_formed_is_corrupt() {
    let bytes = record_of_one_line("bonjour", 4, true, 9);
    for cut in 0..bytes.len() {
        let (entry, purge) = ChainInfo::new(4, Ok(Some(bytes[..cut].to_vec())), 20).unwrap();
        assert!(purge, "cut at {}", cut);
        assert!(entry.is_empty());
    }
    let mut bad_flag = bytes.clone();
    let n = bad_flag.len();
    bad_flag[n - 9] = 2;
    assert!(ChainInfo::new(4, Ok(Some(bad_flag)), 20).unwrap().1);
    let mut bad_text = bytes.clone();
    bad_text[16] = 0xff;
    assert!(ChainInfo::new(4, Ok(Some(bad_text)), 20).unwrap().1);
}

#[test]
fn a_blank_phrase_is_no_answer() {
    assert_eq!(spoken("hello there".to_string()), Some("hello there".to_string()));
    assert_eq!(spoken(" x".to_string()), Some(" x".to_string()));
    assert_eq!(spoken(String::new()), None);
    assert_eq!(spoken(" \t\u{3000}".to_string()), None);
}

#[test]
fn a_known_token_always_anchors_a_phrase() {
    let mut entry = fresh(5, 100);
    entry.feed("one two three\nfour two", 101);
    for token in ["one", "two", "three", "four"].iter() {
        for _ in 0..50 {
            let phrase = entry.gen_from(token).unwrap();
            assert!(phrase.starts_with(token), "{}", phrase);
        }
    }
    for token in ["five", "one two", "", " ", "On", "two "].iter() {
        assert_eq!(entry.gen_from(token), None, "{:?}", token);
    }
}

#[test]
fn an_empty_model_anchors_nothing() {
    let entry = fresh(5, 100);
    assert_eq!(entry.gen_from("hello"), None);
    assert_eq!(entry.gen_from(""), None);
}

#[test]
fn a_known_seed_always_begins_the_phrase() {
    let mut entry = fresh(5, 100);
    entry.feed("hello world\n  so long  \nhello", 101);
    for _ in 0..100 {
        let phrase = entry.generate("hello", 102).unwrap();
        assert!(phrase == "hello" || phrase == "hello world", "{}", phrase);
        assert_eq!(entry.generate("long", 103), Ok("long".to_string()));
        assert_eq!(entry.generate("so", 104), Ok("so long".to_string()));
    }
}
