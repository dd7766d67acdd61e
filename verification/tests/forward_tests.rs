use webadmin::forward::{
    add_destination_slot, address_domain, build_sieve_script, domain_script_id, forward_prefix,
    parse_forward_settings, plan_forward_delete, plan_forward_delete_all, forward_page, plan_forward_save, remove_destination, rule_from_settings,
    set_destination, sieve_updates, ForwardRule, ForwardSaveError, UpdateSettings,
};

fn rule(from: &str, to: &[&str], keep_copy: bool) -> ForwardRule {
    ForwardRule { from: from.to_string(), to: to.iter().map(|s| s.to_string()).collect(), keep_copy }
}

fn settings(pairs: &[(&str, &str)]) -> Vec<(String, String)> {
    pairs.iter().map(|(k, v)| (k.to_string(), v.to_string())).collect()
}

#[test]
fn rule_domain_and_keys() {
    assert_eq!(rule("alice@example.com", &[], false).domain(), "example.com");
    assert_eq!(rule("nodomain", &[], false).domain(), "");
    assert_eq!(forward_prefix("alice@example.com"), "mail.forward.alice@example.com");
    assert_eq!(domain_script_id("mail.example.com"), "mail_example_com");
}

#[test]
fn sieve_script_for_a_domain() {
    let rules = vec![
        rule("alice@example.com", &["a@other.org", "b@other.org"], true),
        rule("bob@example.com", &["c@other.org"], false),
        rule("carol@elsewhere.net", &["d@other.org"], false),
        rule("dave@example.com", &[], false),
    ];
    let script = build_sieve_script("example.com", &rules);
    assert_eq!(
        script,
        "require [\"redirect\", \"envelope\", \"copy\"];\n\n\
         if envelope :is \"to\" \"alice@example.com\" {\n  redirect :copy \"a@other.org\";\n  redirect :copy \"b@other.org\";\n}\n\n\
         if envelope :is \"to\" \"bob@example.com\" {\n  redirect \"c@other.org\";\n}\n\n"
    );
    assert_eq!(build_sieve_script("nowhere.org", &rules), "");
}

#[test]
fn settings_are_read_into_sorted_rules() {
    let raw = settings(&[
        ("zed@example.com.to.0", "z@x.org"),
        ("amy@example.com.to.1", "second@x.org"),
        ("amy@example.com.to.0", "first@x.org"),
        ("amy@example.com.keep-copy", "false"),
        ("unrelated.key", "x"),
    ]);
    let rules = parse_forward_settings(&raw);
    assert_eq!(
        rules,
        vec![
            rule("amy@example.com", &["first@x.org", "second@x.org"], false),
            rule("zed@example.com", &["z@x.org"], true),
        ]
    );
}

#[test]
fn one_rule_from_its_settings() {
    let raw = settings(&[("to.1", "b@x.org"), ("to.0", "a@x.org"), ("keep-copy", "false")]);
    assert_eq!(rule_from_settings("me@example.com", &raw), rule("me@example.com", &["a@x.org", "b@x.org"], false));
    assert!(rule_from_settings("me@example.com", &vec![]).keep_copy);
}

#[test]
fn saving_a_new_rule() {
    let plan = plan_forward_save(" Alice@Example.com ", "a@x.org, nope\nb@y.org", true, "", true).unwrap();
    assert_eq!(
        plan.updates,
        vec![
            UpdateSettings::Clear { prefix: "mail.forward.alice@example.com.".to_string(), filter: None },
            UpdateSettings::Insert {
                prefix: Some("mail.forward.alice@example.com".to_string()),
                values: settings(&[("to.0", "a@x.org"), ("to.1", "b@y.org"), ("keep-copy", "true")]),
                assert_empty: false,
            },
        ]
    );
    assert_eq!(plan.affected, vec!["example.com".to_string()]);
}

#[test]
fn renaming_a_rule_clears_the_old_source() {
    let plan = plan_forward_save("bob@new.org", "c@x.org", false, "bob@old.org", false).unwrap();
    assert_eq!(plan.updates.len(), 3);
    assert_eq!(plan.updates[0], UpdateSettings::Clear { prefix: "mail.forward.bob@old.org.".to_string(), filter: None });
    assert_eq!(plan.affected, vec!["old.org".to_string(), "new.org".to_string()]);
}

#[test]
fn saving_errors() {
    assert_eq!(plan_forward_save("", "a@x.org", true, "", true), Err(ForwardSaveError::InvalidFrom));
    assert_eq!(plan_forward_save("alice", "a@x.org", true, "", true), Err(ForwardSaveError::InvalidFrom));
    assert_eq!(plan_forward_save("alice@x.org", "nobody", true, "", true), Err(ForwardSaveError::NoDestination));
    assert_eq!(ForwardSaveError::NoDestination.message(), "At least one valid destination address is required.");
}

#[test]
fn saved_rule_reads_back() {
    let plan = plan_forward_save("carol@example.com", "d@x.org;e@x.org", false, "", true).unwrap();
    let (prefix, values) = match &plan.updates[1] {
        UpdateSettings::Insert { prefix, values, .. } => (prefix.clone().unwrap(), values.clone()),
        other => panic!("unexpected update {other:?}"),
    };
    let raw: Vec<(String, String)> =
        values.into_iter().map(|(k, v)| (format!("{}.{}", &prefix["mail.forward.".len()..], k), v)).collect();
    assert_eq!(parse_forward_settings(&raw), vec![rule("carol@example.com", &["d@x.org", "e@x.org"], false)]);
}

#[test]
fn deleting_rules() {
    let all = vec![rule("a@one.org", &["x@y.org"], true), rule("b@two.org", &["x@y.org"], true)];
    let plan = plan_forward_delete(&vec!["a@one.org".to_string()], &all);
    assert_eq!(plan.updates, vec![UpdateSettings::Clear { prefix: "mail.forward.a@one.org.".to_string(), filter: None }]);
    assert_eq!(plan.affected, vec!["one.org".to_string()]);
    assert_eq!(plan.remaining, vec![rule("b@two.org", &["x@y.org"], true)]);
}

#[test]
fn script_updates_per_domain() {
    let rules = vec![rule("a@one.org", &["x@y.org"], false)];
    let updates = sieve_updates(&vec!["one.org".to_string(), "two.org".to_string()], &rules);
    assert_eq!(
        updates[1],
        UpdateSettings::Delete { keys: vec!["sieve.trusted.scripts.two_org.contents".to_string()] }
    );
    match &updates[0] {
        UpdateSettings::Insert { prefix, values, assert_empty } => {
            assert_eq!(prefix.as_deref(), Some("sieve.trusted.scripts"));
            assert_eq!(values[0].0, "one_org.contents");
            assert_eq!(values[0].1, build_sieve_script("one.org", &rules));
            assert!(!assert_empty);
        }
        other => panic!("unexpected update {other:?}"),
    }
    assert_eq!(address_domain("x@Sub.Example.org"), "Sub.Example.org");
}

#[test]
fn destination_list_editing() {
    let mut dests: Vec<String> = vec![];
    add_destination_slot(&mut dests);
    assert_eq!(dests, vec!["".to_string()]);
    add_destination_slot(&mut dests);
    assert_eq!(dests.len(), 1);
    set_destination(&mut dests, 0, "a@x.org".to_string());
    set_destination(&mut dests, 5, "ignored".to_string());
    add_destination_slot(&mut dests);
    assert_eq!(dests, vec!["a@x.org".to_string(), "".to_string()]);
    remove_destination(&mut dests, 0);
    assert_eq!(dests, vec!["".to_string()]);
}

#[test]
fn other_domain_rules_leave_script_unchanged() {
    let own = vec![rule("a@x.org", &["b@y.org"], false), rule("c@x.org", &["d@z.org"], true)];
    let mixed = vec![
        rule("q@other.net", &["r@s.net"], true),
        own[0].clone(),
        rule("t@other.net", &["u@v.net"], false),
        own[1].clone(),
    ];
    assert_eq!(build_sieve_script("x.org", &mixed), build_sieve_script("x.org", &own));
    assert!(build_sieve_script("x.org", &mixed[..1]).is_empty());
}

#[test]
fn keys_are_source_then_field() {
    let raw = settings(&[("john.to.doe@example.com.keep-copy", "false")]);
    assert_eq!(parse_forward_settings(&raw), vec![rule("john.to.doe@example.com", &[], false)]);
    let raw = settings(&[("a.to.b@x.to.0", "c@y"), ("a.to.b@x.to.note", "ignored"), ("plain", "ignored")]);
    assert_eq!(parse_forward_settings(&raw), vec![rule("a.to.b@x", &["c@y"], true)]);
}

#[test]
fn forward_list_search_and_pages() {
    let mut rules = Vec::new();
    for i in 0..25 {
        rules.push(rule(&format!("user{i}@Example.com"), &[&format!("dest{i}@other.org")], false));
    }
    rules.push(rule("boss@corp.net", &["Alice@Example.COM"], true));
    let (page, total) = forward_page(&rules, None, 3);
    assert_eq!(total, 26);
    assert_eq!(page, vec![20, 21, 22, 23, 24, 25]);
    let (page, total) = forward_page(&rules, Some("ALICE"), 1);
    assert_eq!((page, total), (vec![25], 1));
    let (page, total) = forward_page(&rules, Some("example.com"), 2);
    assert_eq!(total, 26);
    assert_eq!(page, (10..20).collect::<Vec<usize>>());
    assert_eq!(forward_page(&rules, Some("nobody"), 1), (vec![], 0));
}

#[test]
fn deleting_all_rules() {
    let rules = vec![
        rule("a@x.org", &["b@y.org"], false),
        rule("c@z.org", &["d@y.org"], true),
        rule("e@x.org", &["f@y.org"], true),
    ];
    let plan = plan_forward_delete_all(&rules);
    assert_eq!(plan.updates, vec![UpdateSettings::Clear { prefix: "mail.forward.".to_string(), filter: None }]);
    assert_eq!(plan.affected, vec!["x.org".to_string(), "z.org".to_string()]);
    assert!(plan.remaining.is_empty());
}
