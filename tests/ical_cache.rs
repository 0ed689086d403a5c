use qs_native::ical::{param_value, resolve_urls, stable_hash, unescape_ical, Args};
use std::collections::hash_map::DefaultHasher;
use std::hash::{Hash, Hasher};

#[test]
fn test_args_parse_multiple_urls() {
    let args = vec![
        "--url".to_string(),
        "http://example.com/1".to_string(),
        "--cache-dir".to_string(),
        "/tmp".to_string(),
        "--url".to_string(),
        "http://example.com/2".to_string(),
    ];

    let parsed = Args::parse(args).expect("Failed to parse args");
    assert_eq!(parsed.urls.len(), 2);
    assert_eq!(parsed.urls[0], "http://example.com/1");
    assert_eq!(parsed.urls[1], "http://example.com/2");
}

#[test]
fn test_resolve_urls_with_env() {
    let args = Args {
        urls: vec!["http://example.com/cli".to_string()],
        cache_dir: "/tmp".to_string(),
        days: 30,
        env_file: None,
    };
    let urls = resolve_urls(&args, None).expect("one url given");
    assert_eq!(urls, vec!["http://example.com/cli".to_string()]);
}

#[test]
fn test_hashing_consistency() {
    let url1 = "http://example.com/calendar.ics";
    let mut h1 = DefaultHasher::new();
    url1.hash(&mut h1);
    let hash1 = h1.finish();

    let mut h2 = DefaultHasher::new();
    url1.hash(&mut h2);
    let hash2 = h2.finish();

    assert_eq!(hash1, hash2);

    let url2 = "http://example.com/calendar2.ics";
    let mut h3 = DefaultHasher::new();
    url2.hash(&mut h3);
    let hash3 = h3.finish();

    assert_ne!(hash1, hash3);
}

#[test]
fn stable_hash_is_fnv1a() {
    assert_eq!(stable_hash(""), 0xcbf29ce484222325);
    assert_eq!(stable_hash("a"), 0xaf63dc4c8601ec8c);
    assert_eq!(
        stable_hash("http://example.com/calendar.ics"),
        stable_hash("http://example.com/calendar.ics")
    );
    assert_ne!(
        stable_hash("http://example.com/calendar.ics"),
        stable_hash("http://example.com/calendar2.ics")
    );
}

#[test]
fn args_defaults_and_errors() {
    let parsed = Args::parse(vec!["--cache-dir".to_string(), "/c".to_string()]).unwrap();
    assert_eq!(parsed.days, 180);
    assert!(parsed.urls.is_empty());
    assert_eq!(parsed.env_file, None);

    let with_days = Args::parse(vec![
        "--days".to_string(),
        "-30".to_string(),
        "--cache-dir".to_string(),
        "/c".to_string(),
        "--env-file".to_string(),
        "/e".to_string(),
        "--other".to_string(),
    ])
    .unwrap();
    assert_eq!(with_days.days, -30);
    assert_eq!(with_days.env_file, Some("/e".to_string()));

    let missing = Args::parse(vec!["--url".to_string(), "http://x".to_string()]);
    assert_eq!(missing.err(), Some("Missing --cache-dir".to_string()));

    let bad_days = Args::parse(vec![
        "--cache-dir".to_string(),
        "/c".to_string(),
        "--days".to_string(),
        "ten".to_string(),
    ]);
    assert_eq!(bad_days.err(), Some("Invalid --days".to_string()));

    let too_big = Args::parse(vec![
        "--cache-dir".to_string(),
        "/c".to_string(),
        "--days".to_string(),
        "9223372036854775808".to_string(),
    ]);
    assert_eq!(too_big.err(), Some("Invalid --days".to_string()));

    let min = Args::parse(vec![
        "--cache-dir".to_string(),
        "/c".to_string(),
        "--days".to_string(),
        "-9223372036854775808".to_string(),
    ])
    .unwrap();
    assert_eq!(min.days, i64::MIN);
}

#[test]
fn resolve_urls_splits_env_value() {
    let args = Args {
        urls: vec!["http://example.com/cli".to_string()],
        cache_dir: "/tmp".to_string(),
        days: 30,
        env_file: None,
    };
    let urls = resolve_urls(&args, Some(" http://a , ,http://b,")).unwrap();
    assert_eq!(
        urls,
        vec![
            "http://example.com/cli".to_string(),
            "http://a".to_string(),
            "http://b".to_string()
        ]
    );

    let none = Args { urls: vec![], cache_dir: "/tmp".to_string(), days: 1, env_file: None };
    assert_eq!(
        resolve_urls(&none, Some(" , ")).err(),
        Some("Missing calendar URL. Provide --url or CALENDAR_ICAL_URL.".to_string())
    );
}

#[test]
fn ical_text_helpers() {
    assert_eq!(unescape_ical("a\\,b\\;c\\nd\\\\e".to_string()), "a,b;c\nd\\e");
    let params = vec![
        ("TZID".to_string(), vec!["Europe/Berlin".to_string()]),
        ("VALUE".to_string(), vec![]),
    ];
    assert_eq!(param_value(&params, "tzid"), Some("Europe/Berlin".to_string()));
    assert_eq!(param_value(&params, "value"), None);
    assert_eq!(param_value(&params, "other"), None);
}
