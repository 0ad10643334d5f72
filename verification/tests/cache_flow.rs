use vegvesen_lookup::cache::CacheError;
use vegvesen_lookup::cache::CacheState;
use vegvesen_lookup::cache::LookupStep;
use vegvesen_lookup::cache::ReadAttempt;
use vegvesen_lookup::cache::begin_lookup;
use vegvesen_lookup::cache::classify_read;
use vegvesen_lookup::cache::finish_lookup;
use vegvesen_lookup::cache::get_cached_or_compute;
use vegvesen_lookup::cache::settle_write;

/// Drives one lookup the way the surrounding program does, running the
/// fallback computation only when the store decides a miss.
fn drive<F: FnMut(&str) -> Result<String, String>>(
    cache: &mut CacheState,
    key: &str,
    f: &mut F,
) -> Result<String, CacheError> {
    match begin_lookup(cache, key) {
        LookupStep::Hit(v) => Ok(v),
        LookupStep::Miss => {
            let computed = f(key);
            finish_lookup(cache, key, computed)
        }
    }
}

#[test]
fn get_existing() {
    let existing_key = "YEP";
    let mut cache = CacheState::new();
    cache.write(existing_key, String::new());

    let response = get_cached_or_compute(
        &mut cache,
        existing_key,
        Err(String::from("Fuu")),
    );

    assert!(response.is_ok());
}

#[test]
fn hit_returns_exact_bytes_and_never_computes() {
    let mut cache = CacheState::new();
    cache.write("AB1234", String::from("stored value"));

    let mut calls = 0;
    let mut f = |_k: &str| {
        calls += 1;
        Ok(String::from("fresh value"))
    };
    let response = drive(&mut cache, "AB1234", &mut f);

    assert_eq!(response.unwrap(), "stored value");
    assert_eq!(calls, 0);
}

#[test]
fn miss_computes_persists_and_later_failure_is_masked() {
    let mut cache = CacheState::new();

    let mut first_calls = 0;
    let mut first = |_k: &str| {
        first_calls += 1;
        Ok(String::from("computed once"))
    };
    let response = drive(&mut cache, "AB1234", &mut first);
    assert_eq!(response.unwrap(), "computed once");
    assert_eq!(first_calls, 1);

    let mut second = |_k: &str| Err(String::from("upstream down"));
    let again = drive(&mut cache, "AB1234", &mut second);
    assert_eq!(again.unwrap(), "computed once");
}

#[test]
fn miss_then_failure_leaves_no_entry() {
    let mut cache = CacheState::new();

    let mut f = |_k: &str| Err(String::from("boom"));
    let response = drive(&mut cache, "ZZ9999", &mut f);
    match response {
        Err(CacheError::Callback(msg)) => assert_eq!(msg, "boom"),
        other => panic!("expected a Callback error, got {:?}", other),
    }

    assert!(matches!(begin_lookup(&cache, "ZZ9999"), LookupStep::Miss));
}

#[test]
fn later_write_for_a_key_wins() {
    let mut cache = CacheState::new();
    cache.write("AB1234", String::from("first"));
    cache.write("AB1234", String::from("second"));
    match begin_lookup(&cache, "AB1234") {
        LookupStep::Hit(v) => assert_eq!(v, "second"),
        LookupStep::Miss => panic!("a written key must be a hit"),
    }
}

#[test]
fn readable_attempt_is_a_hit() {
    let step = classify_read(ReadAttempt::Readable(String::from("cached text")));
    match step {
        LookupStep::Hit(v) => assert_eq!(v, "cached text"),
        LookupStep::Miss => panic!("a readable entry must be a hit"),
    }
}

#[test]
fn unreadable_attempt_is_a_miss() {
    assert!(matches!(classify_read(ReadAttempt::Unreadable), LookupStep::Miss));
}

#[test]
fn write_failure_is_fatal_io() {
    let settled = settle_write(String::from("good value"), Err(String::from("disk full")));
    match settled {
        Err(CacheError::Io(msg)) => assert_eq!(msg, "disk full"),
        _ => panic!("a persistence failure must surface as an Io error"),
    }
}

#[test]
fn write_success_serves_the_value() {
    let settled = settle_write(String::from("good value"), Ok(()));
    assert_eq!(settled.unwrap(), "good value");
}

#[test]
fn pipeline_orders_hit_before_compute() {
    let mut cache = CacheState::new();
    let first = get_cached_or_compute(&mut cache, "CD5678", Ok(String::from("v1")));
    assert_eq!(first.unwrap(), "v1");

    let second = get_cached_or_compute(&mut cache, "CD5678", Ok(String::from("v2")));
    assert_eq!(second.unwrap(), "v1");

    let third = get_cached_or_compute(&mut cache, "CD5678", Err(String::from("down")));
    assert_eq!(third.unwrap(), "v1");
}

#[test]
fn callback_error_keeps_the_message() {
    let mut cache = CacheState::new();
    let response = get_cached_or_compute(&mut cache, "EF1111", Err(String::from("no route")));
    match response {
        Err(CacheError::Callback(msg)) => assert_eq!(msg, "no route"),
        _ => panic!("a failed computation on a cold key must be a Callback error"),
    }
}
