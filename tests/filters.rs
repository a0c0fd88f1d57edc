use syslog_ng_filters::{
    create_new_impl, rust_filter_proxy_eval, rust_filter_proxy_free, rust_filter_proxy_init,
    rust_filter_proxy_set_option, split_list, DummyFilter, FilterImpl, GlobalConfig,
    InListFilter, LogMessage, Msg, RustFilter, ValueRegistry,
};

fn config() -> GlobalConfig {
    GlobalConfig { user_version: 0x0316, parsed_version: 0x0316, filename: "f.conf".to_string() }
}

fn message(reg: &mut ValueRegistry, field: &str, value: &str) -> LogMessage {
    let mut msg = LogMessage::new();
    let h = LogMessage::get_value_handle(reg, field);
    msg.set_value(h, value);
    msg
}

fn in_list(reg: &mut ValueRegistry, list: &str) -> InListFilter {
    let mut f = InListFilter::new(reg);
    f.set_option("list".to_string(), list.to_string(), reg);
    f.init(&config());
    f
}

#[test]
fn interning_is_stable_and_distinct() {
    let mut reg = ValueRegistry::new();
    let a = LogMessage::get_value_handle(&mut reg, "PROGRAM");
    let b = LogMessage::get_value_handle(&mut reg, "HOST");
    let c = LogMessage::get_value_handle(&mut reg, "PROGRAM");
    assert_eq!(a, c);
    assert_ne!(a, b);
    assert_eq!(reg.lookup("HOST"), Some(b));
    assert_eq!(reg.lookup("PID"), None);
    assert_eq!(reg.len(), 2);
    assert_eq!(reg.name_of(b), Some("HOST"));
    assert_eq!(reg.name_of(0), None);
    assert_eq!(reg.name_of(3), None);
}

#[test]
fn absent_field_reads_empty_and_later_value_wins() {
    let mut reg = ValueRegistry::new();
    let h = LogMessage::get_value_handle(&mut reg, "PROGRAM");
    let mut msg = LogMessage::new();
    assert_eq!(msg.get_value(h), "");
    msg.set_value(h, "sshd");
    msg.set_value(h, "cron");
    assert_eq!(msg.get_value(h), "cron");
    assert_eq!(msg.get_value_by_name(&reg, "PROGRAM"), "cron");
    assert_eq!(msg.get_value_by_name(&reg, "HOST"), "");
}

#[test]
fn list_is_cut_at_each_comma_without_trimming() {
    assert_eq!(split_list("a, b,,c"), vec!["a", " b", "", "c"]);
    assert_eq!(split_list(""), vec![""]);
}

#[test]
fn in_list_admits_member_value() {
    let mut reg = ValueRegistry::new();
    let f = in_list(&mut reg, "a,b,c");
    assert!(f.eval(&message(&mut reg, "PROGRAM", "b")));
}

#[test]
fn in_list_rejects_other_value() {
    let mut reg = ValueRegistry::new();
    let f = in_list(&mut reg, "a,b,c");
    assert!(!f.eval(&message(&mut reg, "PROGRAM", "d")));
}

#[test]
fn in_list_does_not_trim_value() {
    let mut reg = ValueRegistry::new();
    let f = in_list(&mut reg, "a,b,c");
    assert!(!f.eval(&message(&mut reg, "PROGRAM", "b ")));
}

#[test]
fn in_list_reinit_gives_same_answers() {
    let mut reg = ValueRegistry::new();
    let mut f = in_list(&mut reg, "a,b,b,c");
    let values = ["a", "b", "c", "d", "", "b "];
    let first: Vec<bool> = values.iter().map(|v| f.eval(&message(&mut reg, "PROGRAM", v))).collect();
    f.init(&config());
    let second: Vec<bool> = values.iter().map(|v| f.eval(&message(&mut reg, "PROGRAM", v))).collect();
    assert_eq!(first, second);
    assert_eq!(first, vec![true, true, true, false, false, false]);
}

#[test]
fn in_list_field_option_switches_field() {
    let mut reg = ValueRegistry::new();
    let mut f = InListFilter::new(&mut reg);
    f.set_option("field".to_string(), "HOST".to_string(), &mut reg);
    f.set_option("list".to_string(), "web1,web2".to_string(), &mut reg);
    f.init(&config());
    assert!(f.eval(&message(&mut reg, "HOST", "web2")));
    assert!(!f.eval(&message(&mut reg, "PROGRAM", "web2")));
}

#[test]
fn in_list_before_init_admits_nothing() {
    let mut reg = ValueRegistry::new();
    let mut f = InListFilter::new(&mut reg);
    f.set_option("list".to_string(), "a".to_string(), &mut reg);
    assert!(!f.eval(&message(&mut reg, "PROGRAM", "a")));
}

#[test]
fn dummy_admits_everything_whatever_options() {
    let mut reg = ValueRegistry::new();
    let mut d = DummyFilter::new();
    assert_eq!(d.value, 1);
    d.set_option("list".to_string(), "x".to_string(), &mut reg);
    d.set_option("anything".to_string(), "y".to_string(), &mut reg);
    d.init(&config());
    assert!(d.eval(&LogMessage::new()));
    assert!(d.eval(&message(&mut reg, "PROGRAM", "z")));
}

#[test]
fn factory_builds_known_filters() {
    let mut reg = ValueRegistry::new();
    let d = create_new_impl(b"dummy\0", &mut reg);
    assert!(matches!(d.as_deref().map(|w| &w.filter), Some(FilterImpl::Dummy(_))));
    let l = create_new_impl(b"in_list\0", &mut reg);
    assert!(matches!(l.as_deref().map(|w| &w.filter), Some(FilterImpl::InList(_))));
}

#[test]
fn factory_gives_none_for_unknown_name() {
    let mut reg = ValueRegistry::new();
    assert!(create_new_impl(b"unknown\0", &mut reg).is_none());
    assert!(create_new_impl(b"Dummy\0", &mut reg).is_none());
    assert_eq!(reg.lookup("PROGRAM"), None);
}

#[test]
fn unknown_filter_then_free_is_safe() {
    let mut reg = ValueRegistry::new();
    let w = create_new_impl(b"unknown\0", &mut reg);
    rust_filter_proxy_free(w);
}

#[test]
fn proxy_round_trip_through_boundary() {
    let mut reg = ValueRegistry::new();
    let mut w = create_new_impl(b"in_list\0", &mut reg).unwrap();
    rust_filter_proxy_set_option(&mut w, b"list\0", b"sshd,cron\0", &mut reg);
    rust_filter_proxy_init(&mut w, &config());
    assert_eq!(rust_filter_proxy_eval(&w, &message(&mut reg, "PROGRAM", "cron")), 1);
    assert_eq!(rust_filter_proxy_eval(&w, &message(&mut reg, "PROGRAM", "ntpd")), 0);
    rust_filter_proxy_free(Some(w));
}

#[test]
fn unknown_option_leaves_filter_unchanged() {
    let mut reg = ValueRegistry::new();
    let mut w = create_new_impl(b"in_list\0", &mut reg).unwrap();
    rust_filter_proxy_set_option(&mut w, b"list\0", b"a,b\0", &mut reg);
    rust_filter_proxy_set_option(&mut w, b"colour\0", b"blue\0", &mut reg);
    assert_eq!(reg.lookup("blue"), None);
    rust_filter_proxy_init(&mut w, &config());
    assert_eq!(rust_filter_proxy_eval(&w, &message(&mut reg, "PROGRAM", "a")), 1);
    assert_eq!(rust_filter_proxy_eval(&w, &message(&mut reg, "PROGRAM", "colour")), 0);
}

#[test]
fn dummy_through_boundary_always_matches() {
    let mut reg = ValueRegistry::new();
    let mut w = create_new_impl(b"dummy\0", &mut reg).unwrap();
    rust_filter_proxy_set_option(&mut w, b"x\0", b"y\0", &mut reg);
    rust_filter_proxy_init(&mut w, &config());
    assert_eq!(rust_filter_proxy_eval(&w, &LogMessage::new()), 1);
}

#[test]
fn severities_map_to_syslog_priorities() {
    assert_eq!(Msg::Fatal.priority(), 2);
    assert_eq!(Msg::Error.priority(), 3);
    assert_eq!(Msg::Warning.priority(), 4);
    assert_eq!(Msg::Notice.priority(), 5);
    assert_eq!(Msg::Info.priority(), 6);
    assert_eq!(Msg::Debug.priority(), 7);
}
