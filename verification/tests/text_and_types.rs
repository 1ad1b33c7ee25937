use ugoira_dl::pixiv::client::{
    default_headers, profile_url, session_cookie, ugoira_meta_url, PIXIV_ROOT, USER_AGENT,
};
use ugoira_dl::pixiv::error::Error;
use ugoira_dl::pixiv::response::{Body, Response};
use ugoira_dl::pixiv::types::{IllustId, Profile, ProfileId, UgoiraDelay};
use ugoira_dl::text::{decimal_string, push_decimal};

#[test]
fn decimal_string_writes_plain_digits() {
    assert_eq!(decimal_string(0), "0");
    assert_eq!(decimal_string(7), "7");
    assert_eq!(decimal_string(10), "10");
    assert_eq!(decimal_string(42), "42");
    assert_eq!(decimal_string(1000), "1000");
    assert_eq!(decimal_string(u64::MAX), "18446744073709551615");
}

#[test]
fn push_decimal_appends_to_what_is_there() {
    let mut s = String::from("id-");
    push_decimal(&mut s, 905);
    assert_eq!(s, "id-905");
}

#[test]
fn identifiers_convert_to_and_from_numbers() {
    let id = IllustId::from(12345u32);
    assert_eq!(u32::from(id), 12345);
    assert_eq!(id, IllustId(12345));
    assert_ne!(id, IllustId(12346));
    let owner = ProfileId::from(77u32);
    assert_eq!(u32::from(owner), 77);
    let delay = UgoiraDelay::from(40u32);
    assert_eq!(u32::from(delay), 40);
}

#[test]
fn identifiers_print_as_decimal_numbers() {
    assert_eq!(IllustId(0).to_string(), "0");
    assert_eq!(IllustId(98765432).to_string(), "98765432");
    assert_eq!(ProfileId(u32::MAX).to_string(), "4294967295");
    assert_eq!(UgoiraDelay(60).to_string(), "60");
}

#[test]
fn delays_add_subtract_and_compare() {
    assert_eq!(UgoiraDelay(100) + UgoiraDelay(23), UgoiraDelay(123));
    assert_eq!(UgoiraDelay(100) - UgoiraDelay(23), UgoiraDelay(77));
    assert!(UgoiraDelay(5) < UgoiraDelay(6));
    assert!(UgoiraDelay(6) >= UgoiraDelay(6));
}

#[test]
fn error_prints_service_message_or_fixed_sentence() {
    assert_eq!(Error::Pixiv(String::from("rate limited")).to_string(), "rate limited");
    assert_eq!(Error::NoData.to_string(), "response has no data");
}

#[test]
fn response_with_body_and_no_error_is_ok() {
    let r = Response { error: false, message: String::new(), body: Some(5u32) };
    assert!(matches!(r.into_result(), Ok(5)));
}

#[test]
fn response_error_flag_wins_over_body() {
    let r = Response { error: true, message: String::from("denied"), body: Some(5u32) };
    match r.into_result() {
        Err(Error::Pixiv(message)) => assert_eq!(message, "denied"),
        other => panic!("unexpected: {:?}", other),
    }
}

#[test]
fn response_without_body_is_no_data() {
    let r: Response<u32> = Response { error: false, message: String::from("ignored"), body: None };
    assert!(matches!(r.into_result(), Err(Error::NoData)));
}

#[test]
fn empty_body_is_none_and_value_is_some() {
    assert_eq!(Body::<u32>::Empty.into_option(), None);
    assert_eq!(Body::Value(9u32).into_option(), Some(9));
}

#[test]
fn profile_keys_become_identifiers_in_order() {
    let keys = vec![String::from("30"), String::from("4"), String::from("007"), String::from("+12")];
    let profile = Profile::from_keys(&keys).unwrap();
    assert_eq!(profile.illusts, vec![IllustId(30), IllustId(4), IllustId(7), IllustId(12)]);
}

#[test]
fn profile_without_keys_is_empty() {
    let profile = Profile::from_keys(&Vec::new()).unwrap();
    assert!(profile.illusts.is_empty());
}

#[test]
fn profile_keys_take_the_whole_u32_range() {
    let keys = vec![String::from("0"), String::from("4294967295")];
    let profile = Profile::from_keys(&keys).unwrap();
    assert_eq!(profile.illusts, vec![IllustId(0), IllustId(u32::MAX)]);
}

#[test]
fn first_bad_profile_key_fails_the_listing() {
    let keys = vec![String::from("1"), String::from("x2"), String::from("")];
    let e = Profile::from_keys(&keys).unwrap_err();
    assert_eq!(e.index, 1);
    assert!(!e.reason.is_empty());
}

#[test]
fn profile_keys_that_are_no_u32_are_refused() {
    for bad in ["", "+", "-1", " 1", "1 ", "1_000", "4294967296", "12a", "++1", "0x10", "１"] {
        let keys = vec![String::from("5"), String::from(bad)];
        let e = Profile::from_keys(&keys).unwrap_err();
        assert_eq!(e.index, 1, "key {:?}", bad);
    }
}

#[test]
fn addresses_are_built_from_the_root() {
    assert_eq!(PIXIV_ROOT, "https://www.pixiv.net/");
    assert_eq!(profile_url(ProfileId(42)), "https://www.pixiv.net/ajax/user/42/profile/all");
    assert_eq!(
        ugoira_meta_url(IllustId(1234567)),
        "https://www.pixiv.net/ajax/illust/1234567/ugoira_meta"
    );
}

#[test]
fn session_cookie_carries_the_session() {
    assert_eq!(session_cookie("abc_123"), "PHPSESSID=abc_123");
    assert_eq!(session_cookie(""), "PHPSESSID=");
}

#[test]
fn default_headers_are_referer_and_user_agent() {
    let headers = default_headers();
    assert_eq!(headers.len(), 2);
    assert_eq!(headers[0].name, "referer");
    assert_eq!(headers[0].value, "https://www.pixiv.net/");
    assert_eq!(headers[1].name, "user-agent");
    assert_eq!(headers[1].value, USER_AGENT);
    assert_eq!(
        USER_AGENT,
        "Mozilla/5.0 (Windows NT 10.0; rv:91.0) Gecko/20100101 Firefox/91.0"
    );
}
