// The decisions of the HTTP layer on concrete values.

use dow_sentiment_analyzer::analyze::antispam::apply_antispam_batch;
use dow_sentiment_analyzer::analyze::rules::RulesOut;
use dow_sentiment_analyzer::api::{
    accept_ai_answer, ai_cache_bias, ai_cache_ttl, ai_corpus, cache_expiry, cache_is_hit,
    count_neutralized, current_day, debug_enabled, debug_routes_enabled, gated_score, iso_now,
    now_string, plan_ai, verdict_of_score, DailyAiCounter,
};
use dow_sentiment_analyzer::decision::Verdict;
use dow_sentiment_analyzer::ingest::backup::MockSink;
use dow_sentiment_analyzer::text::parse_u64;

#[test]
fn numbers_are_parsed_like_u64_from_str() {
    for s in [
        "0", "7", "42", "007", "+5", "+", "", "-1", " 1", "1 ", "1_000", "18446744073709551615",
        "18446744073709551616", "99999999999999999999999", "1e3", "+-1", "++1", "٣", "12a",
    ] {
        assert_eq!(parse_u64(s), s.parse::<u64>().ok(), "{s:?}");
    }
}

#[test]
fn cache_settings_are_read_from_the_environment() {
    assert_eq!(ai_cache_ttl(None, None), 2_000);
    assert_eq!(ai_cache_ttl(Some(" 150 "), Some("9")), 150);
    assert_eq!(ai_cache_ttl(Some("0"), None), 0);
    assert_eq!(ai_cache_ttl(Some("abc"), Some("3")), 3_000);
    assert_eq!(ai_cache_ttl(Some(""), Some(" 0\n")), 0);
    assert_eq!(ai_cache_ttl(None, Some("x")), 2_000);
    assert_eq!(ai_cache_ttl(None, Some("18446744073709551615")), 18_446_744_073_709_551_615_000);
    assert_eq!(ai_cache_bias(None), 10);
    assert_eq!(ai_cache_bias(Some("0")), 0);
    assert_eq!(ai_cache_bias(Some(" 25")), 25);
    assert_eq!(ai_cache_bias(Some("-1")), 10);
}

#[test]
fn cache_hits_until_the_expiry() {
    assert!(!cache_is_hit(None, 100, 5));
    assert!(cache_is_hit(Some(10), 100, 9));
    assert!(!cache_is_hit(Some(10), 100, 10));
    assert!(!cache_is_hit(Some(10), 0, 9));
    assert_eq!(cache_expiry(1_000, 2_000, 10), 2_990);
    assert_eq!(cache_expiry(1_000, 0, 10), 990);
    assert_eq!(cache_expiry(5, 0, 10), 5);
    assert_eq!(cache_expiry(5, 5, 10), 0);
    assert_eq!(cache_expiry(u128::MAX, 1, 10), u128::MAX - 10);
    assert_eq!(cache_expiry(3, u128::MAX, 10), 3);
}

#[test]
fn scores_are_gated_by_relevance() {
    assert_eq!(gated_score(3, true), 3);
    assert_eq!(gated_score(3, false), 0);
    assert_eq!(gated_score(-2, true), -2);
    assert_eq!(gated_score(0, false), 0);
    assert_eq!(count_neutralized(&vec![(3, false), (0, false), (-1, false), (2, true), (0, true)]), 2);
    assert_eq!(count_neutralized(&vec![]), 0);
    assert_eq!(verdict_of_score(1), Verdict::Buy);
    assert_eq!(verdict_of_score(-1), Verdict::Sell);
    assert_eq!(verdict_of_score(0), Verdict::Hold);
    assert_eq!(current_day(86_399), 0);
    assert_eq!(current_day(172_800), 2);
    assert_eq!(now_string(1_700_000_000), "1700000000");
    assert_eq!(iso_now(42), "42Z");
    assert!(debug_enabled(Some("local")));
    assert!(!debug_enabled(Some("Local")));
    assert!(!debug_enabled(None));
    assert!(debug_routes_enabled(Some("local"), None));
    assert!(debug_routes_enabled(Some("production"), Some("1")));
    assert!(!debug_routes_enabled(Some("production"), Some("true")));
    assert!(!debug_routes_enabled(None, None));
}

#[test]
fn corpus_takes_the_first_eight_texts() {
    assert_eq!(ai_corpus(&vec![]), None);
    assert_eq!(ai_corpus(&vec!["one".to_string()]), Some("one".to_string()));
    assert_eq!(ai_corpus(&vec!["one".to_string(), "two".to_string()]), Some("one\n\ntwo".to_string()));
    let ten: Vec<String> = (0..10).map(|i| i.to_string()).collect();
    assert_eq!(ai_corpus(&ten), Some("0\n\n1\n\n2\n\n3\n\n4\n\n5\n\n6\n\n7".to_string()));
    // an empty text at the start leaves no separator behind
    assert_eq!(ai_corpus(&vec!["".to_string(), "a".to_string(), "".to_string()]), Some("a\n\n".to_string()));
}

#[test]
fn ai_is_planned_from_cache_and_limit() {
    let mut c = DailyAiCounter::new(5);
    // no corpus, or switched off: nothing
    let p = plan_ai(false, false, Some("hint".to_string()), &mut c, 5, Some(0));
    assert_eq!((p.reason, p.cache_hit, p.limited, p.should_call), (None, false, false, false));
    let p = plan_ai(true, true, None, &mut c, 5, None);
    assert_eq!((p.reason, p.cache_hit, p.limited, p.should_call), (None, false, false, false));
    // a cached hint is used, also at the limit
    let p = plan_ai(true, false, Some("hint".to_string()), &mut c, 5, Some(0));
    assert_eq!((p.reason.as_deref(), p.cache_hit, p.limited, p.should_call), (Some("hint"), true, false, false));
    // an empty cached hint ends the matter
    let p = plan_ai(true, false, Some(String::new()), &mut c, 5, None);
    assert_eq!((p.reason, p.cache_hit, p.limited, p.should_call), (None, false, false, false));
    // without a limit the AI is asked
    let p = plan_ai(true, false, None, &mut c, 6, None);
    assert_eq!((p.limited, p.should_call), (false, true));
    assert_eq!((c.day, c.used), (5, 0));
    // with a limit the counter decides
    c.used = 2;
    let p = plan_ai(true, false, None, &mut c, 5, Some(3));
    assert_eq!((p.limited, p.should_call), (false, true));
    let p = plan_ai(true, false, None, &mut c, 5, Some(2));
    assert_eq!((p.limited, p.should_call), (true, false));
    // a new day starts a new count
    let p = plan_ai(true, false, None, &mut c, 6, Some(2));
    assert_eq!((p.limited, p.should_call), (false, true));
    assert_eq!((c.day, c.used), (6, 0));
    let p = plan_ai(true, false, None, &mut c, 6, Some(0));
    assert_eq!((p.limited, p.should_call), (true, false));
}

#[test]
fn ai_answers_are_counted_when_used() {
    let mut c = DailyAiCounter::new(5);
    assert_eq!(accept_ai_answer(None, &mut c, 5, Some(3)), None);
    assert_eq!(accept_ai_answer(Some("daily limit reached".to_string()), &mut c, 5, Some(3)), None);
    assert_eq!(c.used, 0);
    assert_eq!(
        accept_ai_answer(Some("Stocks climb".to_string()), &mut c, 5, Some(3)),
        Some("Stocks climb".to_string())
    );
    assert_eq!((c.day, c.used), (5, 1));
    // without a limit nothing is counted
    assert!(accept_ai_answer(Some("Stocks climb".to_string()), &mut c, 5, None).is_some());
    assert_eq!((c.day, c.used), (5, 1));
    // a use on a new day is the first of that day
    assert!(accept_ai_answer(Some("Stocks climb".to_string()), &mut c, 9, Some(3)).is_some());
    assert_eq!((c.day, c.used), (9, 1));
    c.used = usize::MAX;
    c.count_use(9, Some(1));
    assert_eq!(c.used, usize::MAX);
    assert!(c.over_limit(9, Some(usize::MAX)));
    assert!(!c.over_limit(9, None));
}

#[test]
fn small_helpers() {
    let names = vec![Some("buy on cut".to_string()), None, Some(String::new())];
    let out = RulesOut::from_names(&names);
    assert_eq!(out.count, 3);
    assert_eq!(out.names, vec!["buy on cut", "<unnamed>", ""]);

    let mut sink = MockSink::new();
    assert!(sink.calls.is_empty());
    sink.store(vec![("config/a.json".to_string(), "{}".to_string())]);
    sink.store(vec![]);
    assert_eq!(sink.calls.len(), 2);
    assert_eq!(sink.calls[0][0].0, "config/a.json");

    let sec: u128 = 1_000_000_000;
    let items = vec![
        (0, "BREAKING: Fed will hike".to_string()),
        (60 * sec, "breaking:  fed will hike".to_string()),
        (700 * sec, "BREAKING: Fed will hike".to_string()),
    ];
    let kept = apply_antispam_batch(&items, None);
    assert_eq!(kept.iter().map(|k| k.0).collect::<Vec<_>>(), vec![0, 700 * sec]);
}
