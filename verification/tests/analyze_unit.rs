// Contextual rules, near-duplicate filtering and the hints of the AI.

use dow_sentiment_analyzer::analyze::ai_adapter::{
    ai_reason_counts_as_used, build_client_from_config, sanitize_reason, today, AiResult,
    CachingClient, ClientKind, DailyCounter, DisabledClient, MockProvider,
};
use dow_sentiment_analyzer::analyze::antispam::{
    is_similar, levenshtein, normalize as antispam_normalize, AntiSpam, AntiSpamParams,
};
use dow_sentiment_analyzer::analyze::rerank::{rerank_keep_last_and_decay_duplicates, RankItem};
use dow_sentiment_analyzer::analyze::rules::{
    apply_rules_to_text, contains, matches_when, matching_rules, normalize, Rule, Then, When,
};

fn chars(s: &str) -> Vec<char> {
    s.chars().collect()
}

fn phrases(v: &[&str]) -> Option<Vec<String>> {
    Some(v.iter().map(|s| s.to_string()).collect())
}

fn when() -> When {
    When { any_contains: None, all_contains: None, not_contains: None, min_len: None }
}

// The boost of a rule is a float and is added up outside the library;
// the rules that matched tell which boosts count.
#[test]
fn simple_rule_hits() {
    let rules = vec![Rule {
        name: Some("buy on cut".into()),
        when: When {
            any_contains: phrases(&["rate cut", "cuts rates"]),
            all_contains: None,
            not_contains: None,
            min_len: None,
        },
        effect: Then {
            set_action: Some("BUY".into()),
            add_reason: Some("Matched rule: policy easing".into()),
        },
    }];

    let out = apply_rules_to_text("Breaking: Fed cuts rates today", &rules);
    assert_eq!(out.action.as_deref(), Some("BUY"));
    assert_eq!(out.matched, vec![0]);
    assert_eq!(out.reasons.len(), 1);
}

#[test]
fn case_and_whitespace_insensitive() {
    let rules = vec![Rule {
        name: Some("lenient contains".into()),
        when: When { any_contains: phrases(&["policy easing"]), ..when() },
        effect: Then { set_action: None, add_reason: Some("found".into()) },
    }];
    let out = apply_rules_to_text("  POLICY   EASING\tconfirmed ", &rules);
    assert!(out.action.is_none());
    assert_eq!(out.matched, vec![0]);
    assert_eq!(out.reasons, vec!["found"]);
}

#[test]
fn last_matching_rule_sets_the_action() {
    let rule = |word: &str, action: Option<&str>, reason: Option<&str>| Rule {
        name: None,
        when: When { any_contains: phrases(&[word]), ..when() },
        effect: Then { set_action: action.map(String::from), add_reason: reason.map(String::from) },
    };
    let rules = vec![
        rule("fed", Some("BUY"), Some("one")),
        rule("ecb", Some("SELL"), Some("two")),
        rule("cuts", Some("HOLD"), None),
        rule("rates", None, Some("four")),
    ];
    let out = apply_rules_to_text("Fed cuts rates", &rules);
    assert_eq!(out.action.as_deref(), Some("HOLD"));
    assert_eq!(out.matched, vec![0, 2, 3]);
    assert_eq!(out.reasons, vec!["one", "four"]);
    let out = apply_rules_to_text("nothing", &rules);
    assert_eq!((out.action, out.matched.len(), out.reasons.len()), (None, 0, 0));
}

#[test]
fn rule_conditions_combine() {
    let text = normalize("The Fed cuts rates, markets rally");
    assert_eq!(text, "the fed cuts rates, markets rally");
    assert!(matches_when(&text, &when()));
    assert!(matches_when(&text, &When { min_len: Some(33), ..when() }));
    assert!(!matches_when(&text, &When { min_len: Some(34), ..when() }));
    assert!(matches_when(&text, &When { all_contains: phrases(&["fed", "RALLY"]), ..when() }));
    assert!(!matches_when(&text, &When { all_contains: phrases(&["fed", "crash"]), ..when() }));
    assert!(matches_when(&text, &When { all_contains: phrases(&[]), ..when() }));
    assert!(!matches_when(&text, &When { any_contains: phrases(&[]), ..when() }));
    assert!(matches_when(&text, &When { not_contains: phrases(&["crash"]), ..when() }));
    assert!(!matches_when(&text, &When { not_contains: phrases(&["crash", "Cuts  Rates"]), ..when() }));
    // the empty phrase is in every text
    assert!(contains("abc", "  "));
    assert!(!matches_when(&text, &When { not_contains: phrases(&[""]), ..when() }));
    assert!(
        matches_when(
            &text,
            &When {
                any_contains: phrases(&["hike", "cuts"]),
                all_contains: phrases(&["fed"]),
                not_contains: phrases(&["ecb"]),
                min_len: Some(1),
            }
        )
    );
    // the length is counted in characters
    assert!(matches_when("čaj", &When { min_len: Some(3), ..when() }));
    assert!(!matches_when("čaj", &When { min_len: Some(4), ..when() }));
}

#[test]
fn matching_rules_keeps_the_order() {
    let rules = vec![
        When { any_contains: phrases(&["fed"]), ..when() },
        When { any_contains: phrases(&["ecb"]), ..when() },
        when(),
        When { not_contains: phrases(&["fed"]), ..when() },
        When { min_len: Some(3), ..when() },
    ];
    assert_eq!(matching_rules("FED", &rules), vec![0, 2, 4]);
    assert_eq!(matching_rules("", &rules), vec![2, 3]);
    assert_eq!(matching_rules("x", &vec![]), Vec::<usize>::new());
}

#[test]
fn levenshtein_is_the_edit_distance() {
    for (a, b, d) in [
        ("", "", 0),
        ("", "abc", 3),
        ("abc", "", 3),
        ("abc", "abc", 0),
        ("kitten", "sitting", 3),
        ("flaw", "lawn", 2),
        ("a", "b", 1),
        ("ab", "ba", 2),
        ("čaj", "caj", 1),
        ("sunday", "saturday", 3),
    ] {
        assert_eq!(levenshtein(&chars(a), &chars(b)), d, "{a:?} {b:?}");
        assert_eq!(levenshtein(&chars(a), &chars(b)), strsim::levenshtein(a, b), "{a:?} {b:?}");
    }
}

#[test]
fn similarity_is_one_minus_distance_over_length() {
    // distance 1 over length 10: similarity 0.9
    assert!(is_similar(&chars("abcdefghij"), &chars("abcdefghiX"), 900_000));
    assert!(!is_similar(&chars("abcdefghij"), &chars("abcdefghiX"), 900_001));
    assert!(is_similar(&chars("same"), &chars("same"), 1_000_000));
    assert!(is_similar(&chars(""), &chars(""), 1_000_000));
    assert!(!is_similar(&chars("a"), &chars("b"), 1));
    assert!(is_similar(&chars("a"), &chars("b"), 0));
    assert!(!is_similar(&chars("same"), &chars("same"), 1_000_001));
}

const SEC: u128 = 1_000_000_000;

fn ts(base: u128) -> u128 {
    (1_700_000_000 + base) * SEC
}

#[test]
fn f3_antispam_filters_near_duplicates_within_window() {
    let params = AntiSpamParams { window_size: 16, similarity_threshold: 900_000, time_window_secs: 600 };
    let mut anti = AntiSpam::new(params);

    let inputs = vec![
        (ts(0), "BREAKING: Fed will hike".to_string()),
        (ts(60), "BREAKING: Fed will hike".to_string()),
        (ts(120), "BREAKING: Fed will hike".to_string()),
        (ts(700), "Fed keeps rates unchanged".to_string()),
    ];

    let kept = anti.filter_batch(&inputs);

    assert_eq!(kept.len(), 2, "expected only the first and the distant different one to pass");
    assert_eq!(kept[0].1, "BREAKING: Fed will hike");
    assert_eq!(kept[1].1, "Fed keeps rates unchanged");
}

#[test]
fn antispam_forgets_what_is_older_than_the_window() {
    let mut anti = AntiSpam::new(AntiSpamParams { window_size: 4, similarity_threshold: 900_000, time_window_secs: 600 });
    assert!(!anti.should_block(ts(0), "  Fed   will HIKE "));
    assert_eq!(anti.window.len(), 1);
    assert_eq!(anti.window[0].text, chars("fed will hike"));
    assert!(anti.should_block(ts(600), "fed will hike"));
    // at exactly the horizon the item is still remembered; one nanosecond later it is not
    assert!(!anti.should_block(ts(600) + 1, "fed will hike"));
    assert_eq!(anti.window.len(), 1);
    assert_eq!(anti.window[0].ts, ts(600) + 1);
    // an observation from the past evicts nothing
    assert!(anti.should_block(ts(0), "fed will hike"));
}

#[test]
fn antispam_window_has_a_size() {
    let mut anti = AntiSpam::new(AntiSpamParams { window_size: 2, similarity_threshold: 1_000_000, time_window_secs: 600 });
    assert!(!anti.should_block(ts(0), "one"));
    assert!(!anti.should_block(ts(1), "two"));
    assert!(!anti.should_block(ts(2), "three"));
    assert_eq!(anti.window.iter().map(|i| i.text.iter().collect::<String>()).collect::<Vec<_>>(), vec!["two", "three"]);
    // "one" has left the window
    assert!(!anti.should_block(ts(3), "one"));
    assert!(anti.should_block(ts(4), "three"));

    anti.set_params(AntiSpamParams { window_size: 1, similarity_threshold: 2_000_000, time_window_secs: 0 });
    assert_eq!(anti.params().window_size, 1);
    assert_eq!(anti.params().similarity_threshold, 1_000_000);
    assert_eq!(anti.params().time_window_secs, 1);
    assert_eq!(anti.window.len(), 1);
    assert_eq!(anti.window[0].text, chars("one"));
    anti.clear();
    assert!(anti.window.is_empty());

    let tidy = AntiSpam::new(AntiSpamParams { window_size: 0, similarity_threshold: 5, time_window_secs: 0 });
    assert_eq!((tidy.params.window_size, tidy.params.similarity_threshold, tidy.params.time_window_secs), (1, 5, 1));
    let d = AntiSpamParams::default();
    assert_eq!((d.window_size, d.similarity_threshold, d.time_window_secs), (128, 900_000, 600));
    assert_eq!(antispam_normalize(" A  b "), chars("a b"));
}

#[test]
fn noop_ai_client_returns_none() {
    let client = DisabledClient;
    let res = client.analyze("Trump says Dow will soar.");
    assert!(res.is_none(), "the disabled client must return no hint");
    assert_eq!(client.provider_name(), "disabled");
}

#[test]
fn mock_provider_returns_its_hint() {
    let mock = MockProvider { fixed: AiResult { short_reason: "Neutral hint (mock)".to_string() } };
    assert_eq!(mock.fetch("anything").expect("hint").short_reason, "Neutral hint (mock)");
    assert_eq!(mock.name(), "mock");
}

#[test]
fn sanitize_makes_one_plain_line() {
    assert_eq!(sanitize_reason(""), "");
    assert_eq!(sanitize_reason("  Rates\r\n\tcut   expected  "), "Rates cut expected");
    assert_eq!(sanitize_reason("Fed — dovish ✓ tone"), "Fed dovish tone");
    assert_eq!(sanitize_reason("\n\n"), "");
    assert_eq!(sanitize_reason("ok"), "ok");
    let long = "x".repeat(500);
    let out = sanitize_reason(&long);
    assert_eq!(out.len(), 160);
    // the cut comes after 160 characters, and a space at the cut is trimmed
    let spaced = format!("{} tail", "y".repeat(159));
    assert_eq!(sanitize_reason(&spaced), "y".repeat(159));
    let words = "ab ".repeat(100);
    let out = sanitize_reason(&words);
    assert!(out.len() <= 160);
    assert_eq!(out, "ab ".repeat(53) + "a");
    assert!(sanitize_reason("a\u{000B}b \u{000C}").is_ascii());
    assert_eq!(sanitize_reason("a\u{000B}b \u{000C}"), "a\u{000B}b");
}

#[test]
fn limit_replies_do_not_count_as_used() {
    assert!(ai_reason_counts_as_used("Markets steady after dovish remarks."));
    assert!(!ai_reason_counts_as_used(""));
    assert!(!ai_reason_counts_as_used("   \n"));
    assert!(!ai_reason_counts_as_used("Daily LIMIT reached"));
    assert!(!ai_reason_counts_as_used("Quota exceeded"));
    assert!(!ai_reason_counts_as_used("service temporarily unavailable"));
    // the words are looked for anywhere, also inside other words
    assert!(!ai_reason_counts_as_used("Interest rates fell"));
    assert!(!ai_reason_counts_as_used("Coffee prices soar"));
    assert!(!ai_reason_counts_as_used("Market cap grows"));
    assert!(ai_reason_counts_as_used("Stocks climb on earnings"));
}

#[test]
fn client_is_chosen_from_config_and_environment() {
    assert_eq!(build_client_from_config(Some("mock"), false, None), ClientKind::Mock);
    assert_eq!(build_client_from_config(Some("mock"), true, Some("openai")), ClientKind::Mock);
    assert_eq!(build_client_from_config(Some("Mock"), true, Some("openai")), ClientKind::OpenAi);
    assert_eq!(build_client_from_config(None, true, Some("openai")), ClientKind::OpenAi);
    assert_eq!(build_client_from_config(None, false, Some("openai")), ClientKind::Disabled);
    assert_eq!(build_client_from_config(None, true, Some("another")), ClientKind::Disabled);
    assert_eq!(build_client_from_config(None, true, Some("OpenAI")), ClientKind::Disabled);
    assert_eq!(build_client_from_config(None, true, None), ClientKind::Disabled);
}

#[test]
fn daily_limit_counts_real_calls_only() {
    assert_eq!(today(0), "0");
    assert_eq!(today(86_399), "0");
    assert_eq!(today(86_400), "1");
    assert_eq!(today(1_700_000_000), "19675");

    let mut client = CachingClient::new(Some(2), DailyCounter::new(today(0)));
    assert_eq!(client.daily_limit_max, 2);
    assert!(!client.counter.is_expired("0"));
    assert!(client.counter.is_expired("1"));

    assert!(client.begin("0"));
    // a cleaned hint is returned and counted
    let hint = client.settle(Some(AiResult { short_reason: " Rates\nsteady ".to_string() }));
    assert_eq!(hint.expect("hint").short_reason, "Rates steady");
    assert_eq!(client.counter.count, 1);
    // no answer, or an answer of which nothing is left, is not counted
    assert!(client.settle(None).is_none());
    assert!(client.settle(Some(AiResult { short_reason: " \n ✓ ".to_string() })).is_none());
    assert_eq!(client.counter.count, 1);
    assert!(client.begin("0"));
    assert!(client.settle(Some(AiResult { short_reason: "x".to_string() })).is_some());
    assert_eq!(client.counter.count, 2);
    // the limit is reached
    assert!(!client.begin("0"));
    assert_eq!(client.counter.count, 2);
    // a new day starts a new count
    assert!(client.begin("1"));
    assert_eq!((client.counter.date.as_str(), client.counter.count), ("1", 0));

    assert_eq!(CachingClient::new(None, DailyCounter::new("0".to_string())).daily_limit_max, 20);
    let mut none = CachingClient::new(Some(0), DailyCounter::new("0".to_string()));
    assert!(!none.begin("0"));
    let mut full = CachingClient::new(Some(1), DailyCounter { date: "0".to_string(), count: u32::MAX });
    assert!(full.settle(Some(AiResult { short_reason: "x".to_string() })).is_some());
    assert_eq!(full.counter.count, u32::MAX);
    full.counter.reset_to_today("5".to_string());
    assert_eq!((full.counter.date.as_str(), full.counter.count), ("5", 0));
}

fn statement(source: &str, timestamp: i64, text: &str, relevant: bool) -> RankItem {
    RankItem { source: source.into(), timestamp, text: text.into(), relevant }
}

#[test]
fn f3_rerank_prioritizes_latest_and_decays_duplicates() {
    // the relevance of all three statements reaches the threshold
    let items = vec![
        statement("Fed", 1000, "We will hike now", true),
        statement("Fed", 2000, "We will hike now", true),
        statement("Fed", 3000, "We will hike now", true),
    ];

    let plan = rerank_keep_last_and_decay_duplicates(&items, 900_000);

    assert_eq!(items[plan.order[0]].timestamp, 3000);
    assert!(plan.decayed[1], "expected older duplicate to be decayed");
    assert_eq!(plan.decayed, vec![true, true, false]);
    assert_eq!(plan.order, vec![2, 1, 0]);
}

#[test]
fn rerank_puts_the_pick_of_each_source_first() {
    let items = vec![
        statement("Fed", 10, "Rates stay", false),
        statement("ECB", 50, "Euro area slows", false),
        statement("Fed", 30, "RATES STAY", true),
        statement("Fed", 40, "Something else entirely", false),
        statement("ECB", 20, "Euro area slows down", false),
        statement("Fed", 30, "rates stay", true),
        statement("BoE", 5, "", false),
    ];
    let plan = rerank_keep_last_and_decay_duplicates(&items, 900_000);
    // Fed: the latest relevant statement is the last of the two at 30;
    // in lower case the statements at 10 and at 30 repeat it. ECB has no
    // relevant statement, so nothing of it decays.
    assert_eq!(plan.decayed, vec![true, false, true, false, false, false, false]);
    // top: the Fed pick at position 5, the latest ECB statement, the only
    // BoE statement; then the rest from new to old, in the old order
    // among equals.
    assert_eq!(plan.order, vec![1, 5, 6, 3, 2, 4, 0]);

    // a statement with source, timestamp and text of the pick is top too
    let twins = vec![
        statement("Fed", 30, "same", true),
        statement("Fed", 20, "other", true),
        statement("Fed", 30, "same", false),
    ];
    let plan = rerank_keep_last_and_decay_duplicates(&twins, 1_000_000);
    assert_eq!(plan.order, vec![0, 2, 1]);
    assert_eq!(plan.decayed, vec![false, false, true]);

    let none = rerank_keep_last_and_decay_duplicates(&vec![], 0);
    assert!(none.order.is_empty() && none.decayed.is_empty());
    // a threshold of 0 lets every other statement of the source decay
    let plan = rerank_keep_last_and_decay_duplicates(&items, 0);
    assert_eq!(plan.decayed, vec![true, false, true, true, false, false, false]);
}
