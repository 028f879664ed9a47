use cyper::altsvc::{DEFAULT_MAX_AGE, H3_PORT};
use cyper::{parse, AltAuthority, AltService, HostRecord, KnownHosts, ParseError, Service};

fn service(id: &str, host: &str, port: u16, max_age: Option<u64>) -> Service {
    Service {
        id: id.to_string(),
        authority: AltAuthority { host: host.to_string(), port },
        max_age,
        persist: false,
    }
}

#[test]
fn advertisement_round_trip() {
    let parsed = parse("h3=\":443\"; ma=3600").unwrap();
    match parsed {
        AltService::Services(svcs) => {
            assert_eq!(svcs.len(), 1);
            assert_eq!(svcs[0].id, "h3");
            assert_eq!(svcs[0].authority.host, "");
            assert_eq!(svcs[0].authority.port, 443);
            assert_eq!(svcs[0].max_age, Some(3600));
            assert!(!svcs[0].persist);
        }
        AltService::Clear => panic!("expected services"),
    }
}

#[test]
fn clear_with_whitespace() {
    assert_eq!(parse("clear").unwrap(), AltService::Clear);
    assert_eq!(parse("  clear\t").unwrap(), AltService::Clear);
    assert_eq!(parse("\u{a0}clear \n").unwrap(), AltService::Clear);
}

#[test]
fn clear_on_empty_cache_is_noop() {
    let mut hosts = KnownHosts::new();
    hosts.apply_at("example.com", &AltService::Clear, 5);
    hosts.clear("example.com");
    assert!(!hosts.find_at("example.com", 5));
}

#[test]
fn several_services_and_params() {
    let parsed = parse("h2=\"alt.example:8443\"; persist=1, h3=\":443\";ma=60;persist=0,, ").unwrap();
    let expected = AltService::Services(vec![
        Service {
            id: "h2".to_string(),
            authority: AltAuthority { host: "alt.example".to_string(), port: 8443 },
            max_age: None,
            persist: true,
        },
        service("h3", "", 443, Some(60)),
    ]);
    assert_eq!(parsed, expected);
}

#[test]
fn empty_header_gives_no_services() {
    assert_eq!(parse("").unwrap(), AltService::Services(vec![]));
    assert_eq!(parse(" , ;").unwrap(), AltService::Services(vec![Service::default()]));
}

#[test]
fn parse_errors_name_the_fragment() {
    assert_eq!(parse("h3").unwrap_err(), ParseError::Parameter("h3".to_string()));
    assert_eq!(parse("a=b=c").unwrap_err(), ParseError::Parameter("a=b=c".to_string()));
    assert_eq!(parse("h3=\":443\"; ma=abc").unwrap_err(), ParseError::MaValue("abc".to_string()));
    assert_eq!(parse("ma=-1").unwrap_err(), ParseError::MaValue("-1".to_string()));
    assert_eq!(parse("persist=yes").unwrap_err(), ParseError::PersistValue("yes".to_string()));
    assert_eq!(parse("h3=\"host\"").unwrap_err(), ParseError::AltAuthorityValue("host".to_string()));
    assert_eq!(parse("h3=\"[::1]:443\"").unwrap_err(), ParseError::AltAuthorityValue("[::1]:443".to_string()));
    assert_eq!(parse("h3=\":70000\"").unwrap_err(), ParseError::PortNumber("70000".to_string()));
    assert_eq!(parse("h3=\":\"").unwrap_err(), ParseError::PortNumber("".to_string()));
}

#[test]
fn numbers_follow_str_parse() {
    let parsed = parse("h3=\":+443\"; ma=+18446744073709551615; persist=-2147483648").unwrap();
    assert_eq!(parsed, AltService::Services(vec![service("h3", "", 443, Some(u64::MAX))]));
    assert_eq!(
        parse("ma=18446744073709551616").unwrap_err(),
        ParseError::MaValue("18446744073709551616".to_string())
    );
    assert_eq!(
        parse("persist=2147483648").unwrap_err(),
        ParseError::PersistValue("2147483648".to_string())
    );
    assert_eq!(parse("persist=+").unwrap_err(), ParseError::PersistValue("+".to_string()));
}

#[test]
fn key_is_not_trimmed() {
    // "ma " is not the max-age key, so it is read as a protocol id.
    assert_eq!(parse("ma =3600").unwrap_err(), ParseError::AltAuthorityValue("3600".to_string()));
}

#[test]
fn expiry_boundary() {
    let mut hosts = KnownHosts::new();
    assert!(hosts.try_insert_at("example.com", &service("h3", "", 443, Some(0)), 100));
    assert!(hosts.find_at("example.com", 100));
    assert!(!hosts.find_at("example.com", 101));
    // The expired entry was dropped.
    assert!(!hosts.find_at("example.com", 100));

    assert!(hosts.try_insert_at("example.com", &service("h3", "", 443, Some(10)), 100));
    assert!(hosts.find_at("example.com", 110));
    assert!(!hosts.find_at("example.com", 111));
}

#[test]
fn default_lifetime() {
    assert_eq!(DEFAULT_MAX_AGE, 86400);
    let mut hosts = KnownHosts::new();
    assert!(hosts.try_insert_at("a", &service("h3", "a", 443, None), 0));
    assert!(hosts.find_at("a", 86400));
    assert!(!hosts.find_at("a", 86401));
}

#[test]
fn eligibility_filter() {
    assert_eq!(H3_PORT, 443);
    let mut hosts = KnownHosts::new();
    assert!(!hosts.try_insert_at("example.com", &service("h3", "", 8443, None), 0));
    assert!(!hosts.try_insert_at("example.com", &service("h3", "other.com", 443, None), 0));
    assert!(!hosts.try_insert_at("example.com", &service("h2", "", 443, None), 0));
    assert!(!hosts.find_at("example.com", 0));
    assert!(hosts.try_insert_at("example.com", &service("h3", "", 443, None), 0));
    assert!(hosts.find_at("example.com", 0));
    assert!(hosts.try_insert_at("b.com", &service("h3", "b.com", 443, None), 0));
    assert!(hosts.find_at("b.com", 0));
}

#[test]
fn insert_and_find_now() {
    let mut hosts = KnownHosts::new();
    assert!(hosts.try_insert("example.com", &service("h3", "", 443, Some(3600))));
    assert!(hosts.find("example.com"));
    assert!(!hosts.find("other.com"));
    hosts.clear("example.com");
    assert!(!hosts.find("example.com"));
}

#[test]
fn advertisement_stores_first_eligible() {
    let mut hosts = KnownHosts::new();
    let adv = parse("h2=\":443\", h3=\":8443\", h3=\":443\"; ma=5, h3=\":443\"; ma=100").unwrap();
    hosts.apply_at("x.org", &adv, 10);
    assert!(hosts.find_at("x.org", 15));
    assert!(!hosts.find_at("x.org", 16));

    hosts.apply_at("y.org", &adv, 0);
    hosts.apply_at("y.org", &parse(" clear ").unwrap(), 0);
    assert!(!hosts.find_at("y.org", 0));

    hosts.apply("z.org", &adv);
    assert!(hosts.find("z.org"));
}

#[test]
fn host_record_fields() {
    let r = HostRecord { inserted: 3, max_age: 4 };
    assert_eq!(r, HostRecord { inserted: 3, max_age: 4 });
}

#[test]
fn advertised_h3_needs_default_port() {
    let mut hosts = KnownHosts::new();
    assert!(hosts.try_insert_at("a.org", &service("h3", "", 443, Some(100)), 0));
    assert!(!hosts.advertised_h3_at("a.org", true, 10));
    assert!(hosts.advertised_h3_at("a.org", false, 10));
    assert!(!hosts.advertised_h3_at("a.org", false, 101));
    assert!(!hosts.advertised_h3("b.org", false));
}
