use typven::version::Version;

#[test]
fn parse_reads_the_three_numbers() {
    let v = Version::parse("1.2.3").expect("a version");
    assert_eq!(v.major, 1);
    assert_eq!(v.minor, 2);
    assert_eq!(v.patch, 3);
    assert_eq!(v.pre, "");
    assert_eq!(v.build, "");
}

#[test]
fn parse_reads_pre_release_and_build() {
    let v = Version::parse("10.0.207-alpha.1+build.5").expect("a version");
    assert_eq!(v.major, 10);
    assert_eq!(v.minor, 0);
    assert_eq!(v.patch, 207);
    assert_eq!(v.pre, "alpha.1");
    assert_eq!(v.build, "build.5");
}

#[test]
fn parse_refuses_what_is_no_version() {
    assert!(Version::parse("1.2").is_none());
    assert!(Version::parse("01.2.3").is_none());
    assert!(Version::parse("1.2.3-").is_none());
    assert!(Version::parse("v1.2.3").is_none());
    assert!(Version::parse("latest").is_none());
    assert!(Version::parse("").is_none());
}

#[test]
fn new_is_a_release() {
    let v = Version::new(0, 2, 5);
    assert_eq!(v, Version::parse("0.2.5").expect("a version"));
}

#[test]
fn to_text_writes_every_part() {
    assert_eq!(Version::new(0, 2, 5).to_text(), "0.2.5");
    assert_eq!(Version::new(1, 0, 0).to_text(), "1.0.0");
    assert_eq!(
        Version::parse("10.0.207-alpha.1+build.5").expect("a version").to_text(),
        "10.0.207-alpha.1+build.5"
    );
    assert_eq!(Version::parse("1.2.3-rc.1").expect("a version").to_text(), "1.2.3-rc.1");
    assert_eq!(Version::parse("1.2.3+exp").expect("a version").to_text(), "1.2.3+exp");
}

#[test]
fn to_text_writes_the_largest_numbers() {
    let v = Version::new(u64::MAX, 0, 18446744073709551614);
    assert_eq!(v.to_text(), "18446744073709551615.0.18446744073709551614");
}

#[test]
fn to_text_is_read_back_by_parse() {
    for text in ["0.0.0", "1.2.3", "4.5.6-beta", "7.8.9+meta", "1.0.0-x.7.z.92+a-b"] {
        let v = Version::parse(text).expect("a version");
        assert_eq!(v.to_text(), text);
        assert!(Version::parse(&v.to_text()).expect("a version").same(&v));
    }
}

#[test]
fn same_compares_every_part() {
    let v = Version::parse("1.2.3-a+b").expect("a version");
    assert!(v.same(&v.duplicate()));
    assert!(!v.same(&Version::parse("1.2.3-a+c").expect("a version")));
    assert!(!v.same(&Version::parse("1.2.3-b+b").expect("a version")));
    assert!(!v.same(&Version::parse("1.2.4-a+b").expect("a version")));
    assert!(!v.same(&Version::parse("1.3.3-a+b").expect("a version")));
    assert!(!v.same(&Version::parse("2.2.3-a+b").expect("a version")));
    assert!(!v.same(&Version::new(1, 2, 3)));
}
