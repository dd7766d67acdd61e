use webadmin::directory::{
    build_app_password, parse_app_password, parse_principal_type, IntOrMany, Principal, PrincipalAction,
    PrincipalField, PrincipalType, PrincipalUpdate, PrincipalValue,
};
use webadmin::editor::{
    account_secrets, edit_title, edit_type, form_emails, form_secrets, needed_types, new_principal, plan_save,
    quota_field, quota_from_form, quota_values, secret_fields, PrincipalSave,
};
use webadmin::editor::{dkim_requests, member_of_check, DkimAlgorithm, GroupLookup};
use webadmin::principals::{
    addresses_column, deleted_message, display_name, kind_color, list_kind, list_titles, SpecialSecrets,
};
use webadmin::Color;

fn account(name: &str) -> Principal {
    Principal {
        id: Some(7),
        typ: Some(PrincipalType::Individual),
        name: Some(name.to_string()),
        emails: vec![format!("{name}@example.org")],
        ..Default::default()
    }
}

#[test]
fn type_ids_and_names() {
    assert_eq!(PrincipalType::Individual.id(), "individual");
    assert_eq!(PrincipalType::List.id(), "list");
    assert_eq!(PrincipalType::List.name(), "Mailing List");
    assert_eq!(PrincipalType::Role.name(), "Role");
    assert_eq!(PrincipalType::Group.item_name(false), "group");
    assert_eq!(PrincipalType::Group.item_name(true), "groups");
    assert_eq!(PrincipalType::Individual.resource_name(), "accounts");
}

#[test]
fn type_id_parses_back() {
    for t in [
        PrincipalType::Individual,
        PrincipalType::Group,
        PrincipalType::Resource,
        PrincipalType::Location,
        PrincipalType::List,
        PrincipalType::Other,
        PrincipalType::Domain,
        PrincipalType::Tenant,
        PrincipalType::Role,
    ] {
        assert_eq!(parse_principal_type(t.id()), Ok(t));
        assert_eq!(t.id().parse::<PrincipalType>(), Ok(t));
    }
}

#[test]
fn unknown_type_is_rejected() {
    assert_eq!(parse_principal_type("wizard"), Err("Invalid PrincipalType: wizard".to_string()));
    assert_eq!("wizard".parse::<PrincipalType>(), Err("Invalid PrincipalType: wizard".to_string()));
}

#[test]
fn quota_first_value() {
    assert_eq!(IntOrMany::Int(42).first(), 42);
    assert_eq!(IntOrMany::Many(vec![7, 8]).first(), 7);
    assert_eq!(IntOrMany::Many(vec![]).first(), 0);
}

#[test]
fn blank_principal() {
    assert!(Principal::default().is_blank());
    assert!(!account("jane").is_blank());
}

#[test]
fn unchanged_principal_gives_no_updates() {
    let p = account("jane");
    assert!(p.clone().into_updates(p).is_empty());
}

#[test]
fn changed_name_and_new_alias() {
    let current = account("jane");
    let mut changes = current.clone();
    changes.name = Some("janet".to_string());
    changes.emails.push("jd@example.org".to_string());
    let updates = current.into_updates(changes);
    assert_eq!(
        updates,
        vec![
            PrincipalUpdate {
                action: PrincipalAction::SetValue,
                field: PrincipalField::Name,
                value: PrincipalValue::String("janet".to_string()),
            },
            PrincipalUpdate {
                action: PrincipalAction::AddItem,
                field: PrincipalField::Emails,
                value: PrincipalValue::String("jd@example.org".to_string()),
            },
        ]
    );
}

#[test]
fn removed_member_and_quota() {
    let mut current = account("jane");
    current.member_of = vec!["sales".to_string(), "staff".to_string()];
    let mut changes = current.clone();
    changes.member_of = vec!["staff".to_string()];
    changes.quota = Some(IntOrMany::Int(1024));
    let updates = current.into_updates(changes);
    assert_eq!(
        updates,
        vec![
            PrincipalUpdate {
                action: PrincipalAction::SetValue,
                field: PrincipalField::Quota,
                value: PrincipalValue::Integer(1024),
            },
            PrincipalUpdate {
                action: PrincipalAction::RemoveItem,
                field: PrincipalField::MemberOf,
                value: PrincipalValue::String("sales".to_string()),
            },
        ]
    );
}

#[test]
fn new_password_replaces_old_one() {
    let mut current = account("jane");
    current.secrets = vec!["old-hash".to_string()];
    let mut changes = current.clone();
    changes.secrets = vec!["new-hash".to_string()];
    let updates = current.into_updates(changes);
    assert_eq!(
        updates,
        vec![
            PrincipalUpdate {
                action: PrincipalAction::AddItem,
                field: PrincipalField::Secrets,
                value: PrincipalValue::String("new-hash".to_string()),
            },
            PrincipalUpdate {
                action: PrincipalAction::RemoveItem,
                field: PrincipalField::Secrets,
                value: PrincipalValue::String("old-hash".to_string()),
            },
        ]
    );
}

#[test]
fn app_password_round_trip() {
    let secret = build_app_password("mail", "s3cret");
    assert_eq!(secret, "$app$bWFpbA==$s3cret");
    let (app, password) = parse_app_password(&secret).unwrap();
    assert_eq!(app, "mail");
    assert_eq!(password, "s3cret");
}

#[test]
fn app_password_rejects_bad_input() {
    assert!(parse_app_password("plain").is_none());
    assert!(parse_app_password("$app$no-dollar").is_none());
    assert!(parse_app_password("$app$!!!$pw").is_none());
}

#[test]
fn secret_classification() {
    assert!("$disabled$".is_disabled());
    assert!("otpauth://totp/x".is_otp_auth());
    assert!("$app$bWFpbA==$x".to_string().is_app_password());
    assert!("$6$salt$hash".is_password());
    assert!(!"$disabled$".is_password());
}

#[test]
fn editor_pages_and_titles() {
    assert_eq!(edit_type(Some("groups")), PrincipalType::Group);
    assert_eq!(edit_type(Some("roles")), PrincipalType::Role);
    assert_eq!(edit_type(Some("api-keys")), PrincipalType::Individual);
    assert_eq!(edit_type(None), PrincipalType::Individual);
    assert_eq!(edit_title(PrincipalType::Individual, Some("jane")), "Update 'jane' Account");
    assert_eq!(edit_title(PrincipalType::Tenant, None), "Create Tenant");
    assert_eq!(needed_types(PrincipalType::Domain), vec![PrincipalType::Tenant]);
    assert!(needed_types(PrincipalType::Other).is_empty());
}

#[test]
fn new_principal_defaults() {
    assert_eq!(new_principal(PrincipalType::Individual).roles, vec!["user".to_string()]);
    assert_eq!(new_principal(PrincipalType::Tenant).roles, vec!["tenant-admin".to_string(), "user".to_string()]);
    assert_eq!(
        new_principal(PrincipalType::Group).enabled_permissions,
        vec!["email-send".to_string(), "email-receive".to_string()]
    );
    assert!(new_principal(PrincipalType::Role).roles.is_empty());
    assert!(new_principal(PrincipalType::Role).is_blank());
}

#[test]
fn saving_plans() {
    let p = account("jane");
    assert_eq!(plan_save(p.clone(), p.clone()), PrincipalSave::Unchanged);
    assert_eq!(plan_save(Principal::default(), p.clone()), PrincipalSave::Create);
    let mut changed = p.clone();
    changed.description = Some("Jane Doe".to_string());
    match plan_save(p, changed) {
        PrincipalSave::Update { name, updates } => {
            assert_eq!(name, "jane");
            assert_eq!(updates.len(), 1);
            assert_eq!(updates[0].field, PrincipalField::Description);
        }
        other => panic!("unexpected plan {other:?}"),
    }
}

#[test]
fn quota_fields_of_a_principal() {
    assert_eq!(quota_field(0), Some("quota"));
    assert_eq!(quota_field(5), None);
    assert_eq!(quota_field(11), Some("max_api_keys"));
    assert_eq!(quota_values(&Some(IntOrMany::Int(0))), vec![]);
    assert_eq!(quota_values(&Some(IntOrMany::Int(10))), vec![("quota", 10)]);
    assert_eq!(
        quota_values(&Some(IntOrMany::Many(vec![5, 0, 2, 0, 0, 9, 3]))),
        vec![("quota", 5), ("max_groups", 2), ("max_lists", 3)]
    );
    assert_eq!(quota_from_form(PrincipalType::Individual, vec![], 12), IntOrMany::Int(12));
    assert_eq!(quota_from_form(PrincipalType::Tenant, vec![1; 12], 0), IntOrMany::Many(vec![1; 12]));
}

#[test]
fn form_addresses_drop_empty_ones() {
    assert_eq!(
        form_emails("a@x.org".to_string(), vec!["".to_string(), "b@x.org".to_string()]),
        vec!["a@x.org".to_string(), "b@x.org".to_string()]
    );
    assert_eq!(form_emails(String::new(), vec!["b@x.org".to_string()]), vec!["b@x.org".to_string()]);
}

#[test]
fn secrets_shown_in_a_form() {
    let secrets = vec![
        build_app_password("phone", "x"),
        "otpauth://totp/a".to_string(),
        "$6$plain".to_string(),
        "otpauth://totp/b".to_string(),
    ];
    let (apps, otp) = secret_fields(&secrets);
    assert_eq!(apps, vec!["phone".to_string()]);
    assert_eq!(otp, Some("otpauth://totp/b".to_string()));
}

#[test]
fn secrets_set_by_a_form() {
    assert_eq!(account_secrets(""), Some(vec![]));
    let hashed = account_secrets("hunter2").unwrap();
    assert_eq!(hashed.len(), 1);
    assert!(hashed[0].starts_with("$6$"));
    assert!(hashed[0].is_password());
    assert!(pwhash::sha512_crypt::verify("hunter2", &hashed[0]));
    assert!(!pwhash::sha512_crypt::verify("hunter3", &hashed[0]));

    let secrets = form_secrets(
        &vec!["phone".to_string()],
        None,
        Some("api".to_string()),
        Some("otpauth://totp/a".to_string()),
    )
    .unwrap();
    assert_eq!(secrets, vec!["$app$cGhvbmU=$".to_string(), "api".to_string(), "otpauth://totp/a".to_string()]);
    let with_password = form_secrets(&vec![], Some("pw"), Some("ignored".to_string()), None).unwrap();
    assert_eq!(with_password.len(), 1);
    assert!(with_password[0].starts_with("$6$"));
    assert!(pwhash::sha512_crypt::verify("pw", &with_password[0]));
}

#[test]
fn group_membership_checks() {
    let g = "staff".to_string();
    assert_eq!(member_of_check(g.clone(), GroupLookup::Found(Some(PrincipalType::Group))), Ok(g.clone()));
    assert_eq!(
        member_of_check(g.clone(), GroupLookup::Found(Some(PrincipalType::Individual))),
        Err("Principal is not a group".to_string())
    );
    assert_eq!(member_of_check(g.clone(), GroupLookup::Found(None)), Err("Principal is not a group".to_string()));
    assert_eq!(member_of_check(g.clone(), GroupLookup::NotFound), Err("Group does not exist".to_string()));
    assert_eq!(member_of_check(g.clone(), GroupLookup::Unauthorized), Err("Unauthorized".to_string()));
    assert_eq!(
        member_of_check(g, GroupLookup::Failed("Timeout".to_string())),
        Err("Request failed: Timeout".to_string())
    );
}

#[test]
fn dkim_keys_for_new_domains() {
    assert_eq!(
        dkim_requests(Some(PrincipalType::Domain), true, true, Some("example.org")),
        vec![(DkimAlgorithm::Ed25519, "example.org".to_string()), (DkimAlgorithm::Rsa, "example.org".to_string())]
    );
    assert!(dkim_requests(Some(PrincipalType::Domain), false, true, Some("example.org")).is_empty());
    assert!(dkim_requests(Some(PrincipalType::Domain), true, false, Some("example.org")).is_empty());
    assert!(dkim_requests(Some(PrincipalType::Individual), true, true, Some("a")).is_empty());
}

#[test]
fn principal_list_rows() {
    assert_eq!(list_kind("/manage/directory/groups"), PrincipalType::Group);
    assert_eq!(list_kind("/manage/directory/lists/"), PrincipalType::List);
    assert_eq!(list_kind("/manage/directory/accounts"), PrincipalType::Individual);
    assert_eq!(list_kind(""), PrincipalType::Individual);
    assert_eq!(list_titles(PrincipalType::List), ("Mailing Lists", "Manage mailing lists".to_string()));
    let mut p = account("jane");
    assert_eq!(display_name(&p), "jane");
    p.description = Some("Jane Doe".to_string());
    assert_eq!(display_name(&p), "Jane Doe");
    p.emails.push("j@example.org".to_string());
    assert_eq!(addresses_column(&p), ("jane@example.org".to_string(), "1 alias".to_string()));
    assert_eq!(kind_color(PrincipalType::Group), Color::Red);
    assert_eq!(kind_color(PrincipalType::List), Color::Blue);
    assert_eq!(deleted_message(PrincipalType::Individual, 2), "Deleted 2 accounts.");
}
