use rust_iam::aws::{AwsEngine, WildString};
use rust_iam::{Effect, MaybeEffect, Policy, PolicyCollection, ResourceAbstract, Statement};

type Address = ResourceAbstract<AwsEngine>;

fn action(text: &str) -> WildString {
    WildString(text.to_string())
}

fn address(text: &str) -> Address {
    Address::from_str(text).unwrap()
}

fn statement(effect: Effect, actions: &[&str], resources: &[&str]) -> Statement<AwsEngine> {
    Statement {
        effect,
        actions: actions.iter().map(|a| action(a)).collect(),
        resources: resources.iter().map(|r| address(r)).collect(),
    }
}

fn policy(statements: Vec<Statement<AwsEngine>>) -> Policy<AwsEngine> {
    Policy { name: None, statements }
}

fn allow_get_on_mybucket() -> Policy<AwsEngine> {
    policy(vec![statement(Effect::Allow, &["s3:GetObject"], &["arn:aws:s3:::mybucket/*"])])
}

fn deny_all_on_secret() -> Policy<AwsEngine> {
    policy(vec![statement(Effect::Deny, &["s3:*"], &["arn:aws:s3:::mybucket/secret/*"])])
}

#[test]
fn an_empty_collection_permits_nothing() {
    let collection: PolicyCollection<AwsEngine> = PolicyCollection(vec![]);
    assert!(!collection.validate(&action("s3:GetObject"), &address("arn:aws:s3:::mybucket/file.txt")));
    assert!(!collection.validate(&action("*"), &address("arn:")));
    let no_statements = PolicyCollection(vec![policy(vec![]), policy(vec![])]);
    assert!(!no_statements.validate(&action("s3:GetObject"), &address("arn:aws:s3:::mybucket/file.txt")));
}

#[test]
fn an_allow_permits_what_it_covers() {
    let collection = PolicyCollection(vec![allow_get_on_mybucket()]);
    assert!(collection.validate(&action("s3:GetObject"), &address("arn:aws:s3:::mybucket/file.txt")));
    assert!(!collection.validate(&action("s3:GetObject"), &address("arn:aws:s3:::otherbucket/file.txt")));
    assert!(!collection.validate(&action("s3:PutObject"), &address("arn:aws:s3:::mybucket/file.txt")));
}

#[test]
fn a_deny_overrides_an_allow() {
    let collection = PolicyCollection(vec![allow_get_on_mybucket(), deny_all_on_secret()]);
    let get = action("s3:GetObject");
    assert!(!collection.validate(&get, &address("arn:aws:s3:::mybucket/secret/key.pem")));
    assert!(collection.validate(&get, &address("arn:aws:s3:::mybucket/file.txt")));
    // The first policy alone would allow it.
    let alone = PolicyCollection(vec![allow_get_on_mybucket()]);
    assert!(alone.validate(&get, &address("arn:aws:s3:::mybucket/secret/key.pem")));
}

#[test]
fn a_deny_wins_wherever_it_stands() {
    let get = action("s3:GetObject");
    let secret = address("arn:aws:s3:::mybucket/secret/key.pem");
    let orders = [
        vec![deny_all_on_secret(), allow_get_on_mybucket()],
        vec![allow_get_on_mybucket(), deny_all_on_secret()],
        vec![allow_get_on_mybucket(), deny_all_on_secret(), allow_get_on_mybucket()],
        vec![allow_get_on_mybucket(), allow_get_on_mybucket(), deny_all_on_secret()],
    ];
    for policies in orders {
        assert!(!PolicyCollection(policies).validate(&get, &secret));
    }
    let allow = statement(Effect::Allow, &["s3:GetObject"], &["arn:aws:s3:::mybucket/*"]);
    let deny = statement(Effect::Deny, &["s3:*"], &["arn:aws:s3:::mybucket/secret/*"]);
    let mixed = policy(vec![allow.clone(), deny.clone(), allow.clone()]);
    assert_eq!(mixed.matches(&get, &secret), MaybeEffect::Deny);
    let reversed = policy(vec![deny, allow.clone(), allow]);
    assert_eq!(reversed.matches(&get, &secret), MaybeEffect::Deny);
    assert!(!PolicyCollection(vec![mixed]).validate(&get, &secret));
}

#[test]
fn the_order_of_policies_does_not_matter() {
    let get = action("s3:GetObject");
    let put = action("s3:PutObject");
    let requests = [
        address("arn:aws:s3:::mybucket/file.txt"),
        address("arn:aws:s3:::mybucket/secret/key.pem"),
        address("arn:aws:s3:::otherbucket/file.txt"),
    ];
    let first = PolicyCollection(vec![allow_get_on_mybucket(), deny_all_on_secret(), policy(vec![])]);
    let second = PolicyCollection(vec![policy(vec![]), deny_all_on_secret(), allow_get_on_mybucket()]);
    for request in &requests {
        assert_eq!(first.validate(&get, request), second.validate(&get, request));
        assert_eq!(first.validate(&put, request), second.validate(&put, request));
    }
}

#[test]
fn another_allow_never_lifts_a_deny() {
    let get = action("s3:GetObject");
    let secret = address("arn:aws:s3:::mybucket/secret/key.pem");
    let file = address("arn:aws:s3:::otherbucket/file.txt");
    let allow_everything = policy(vec![statement(Effect::Allow, &["*"], &["arn:"])]);

    let denied = PolicyCollection(vec![deny_all_on_secret()]);
    assert!(!denied.validate(&get, &secret));
    let still_denied = PolicyCollection(vec![deny_all_on_secret(), allow_everything.clone()]);
    assert!(!still_denied.validate(&get, &secret));

    let silent = PolicyCollection(vec![allow_get_on_mybucket()]);
    assert!(!silent.validate(&get, &file));
    let now_allowed = PolicyCollection(vec![allow_get_on_mybucket(), allow_everything]);
    assert!(now_allowed.validate(&get, &file));

    let before = policy(vec![statement(Effect::Deny, &["s3:*"], &["arn:aws:s3:::mybucket/secret/*"])]);
    assert_eq!(before.matches(&get, &secret), MaybeEffect::Deny);
    assert_eq!(before.matches(&get, &file), MaybeEffect::NotSpecified);
    let after = policy(vec![
        statement(Effect::Deny, &["s3:*"], &["arn:aws:s3:::mybucket/secret/*"]),
        statement(Effect::Allow, &["*"], &["arn:"]),
    ]);
    assert_eq!(after.matches(&get, &secret), MaybeEffect::Deny);
    assert_eq!(after.matches(&get, &file), MaybeEffect::Allow);
}

#[test]
fn a_statement_covers_any_of_its_actions_on_any_of_its_resources() {
    let rule = statement(
        Effect::Allow,
        &["s3:GetObject", "s3:List*"],
        &["arn:aws:s3:::photos/*", "arn:aws:s3:::music/*"],
    );
    assert_eq!(rule.matches(&action("s3:GetObject"), &address("arn:aws:s3:::music/a.mp3")), MaybeEffect::Allow);
    assert_eq!(rule.matches(&action("s3:ListBucket"), &address("arn:aws:s3:::photos/1.jpg")), MaybeEffect::Allow);
    assert_eq!(rule.matches(&action("s3:PutObject"), &address("arn:aws:s3:::photos/1.jpg")), MaybeEffect::NotSpecified);
    assert_eq!(rule.matches(&action("s3:GetObject"), &address("arn:aws:s3:::films/1.mkv")), MaybeEffect::NotSpecified);
    let refusal = statement(Effect::Deny, &["s3:Delete*"], &["arn:aws:s3:::photos/*"]);
    assert_eq!(refusal.matches(&action("s3:DeleteObject"), &address("arn:aws:s3:::photos/1.jpg")), MaybeEffect::Deny);
    assert_eq!(refusal.matches(&action("s3:GetObject"), &address("arn:aws:s3:::photos/1.jpg")), MaybeEffect::NotSpecified);
}

#[test]
fn a_statement_without_actions_or_resources_covers_nothing() {
    let get = action("s3:GetObject");
    let file = address("arn:aws:s3:::mybucket/file.txt");
    assert_eq!(statement(Effect::Allow, &[], &["arn:"]).matches(&get, &file), MaybeEffect::NotSpecified);
    assert_eq!(statement(Effect::Deny, &["*"], &[]).matches(&get, &file), MaybeEffect::NotSpecified);
    assert_eq!(statement(Effect::Deny, &[], &[]).matches(&get, &file), MaybeEffect::NotSpecified);
}

#[test]
fn a_pattern_that_does_not_compile_matches_nothing() {
    let get = action("s3:GetObject");
    let file = address("arn:aws:s3:::mybucket/file.txt");
    // The broken action is passed over and the next one is tried.
    let rule = statement(Effect::Allow, &["s3:\\", "s3:Get*"], &["arn:aws:s3:::mybucket/*"]);
    assert_eq!(rule.matches(&get, &file), MaybeEffect::Allow);
    let only_broken = statement(Effect::Deny, &["\\"], &["arn:aws:s3:::mybucket/*"]);
    assert_eq!(only_broken.matches(&get, &file), MaybeEffect::NotSpecified);
    // So is a broken resource.
    let broken_resource = Statement {
        effect: Effect::Deny,
        actions: vec![action("*")],
        resources: vec![
            Address {
                partition: None,
                service: Some(action("\\")),
                region: None,
                account_id: None,
                resource_type: None,
                resource_id: None,
            },
        ],
    };
    assert_eq!(broken_resource.matches(&get, &file), MaybeEffect::NotSpecified);
    let collection = PolicyCollection(vec![policy(vec![broken_resource, rule])]);
    assert!(collection.validate(&get, &file));
}

#[test]
fn a_policy_folds_its_statements() {
    let get = action("s3:GetObject");
    let file = address("arn:aws:s3:::mybucket/file.txt");
    assert_eq!(policy(vec![]).matches(&get, &file), MaybeEffect::NotSpecified);
    let named = Policy {
        name: Some("readers".to_string()),
        statements: vec![
            statement(Effect::Allow, &["ec2:*"], &["arn:"]),
            statement(Effect::Allow, &["s3:Get*"], &["arn:aws:s3"]),
        ],
    };
    assert_eq!(named.matches(&get, &file), MaybeEffect::Allow);
    assert_eq!(named.matches(&action("iam:CreateUser"), &file), MaybeEffect::NotSpecified);
}

#[test]
fn policies_are_attached_in_order() {
    let mut collection: PolicyCollection<AwsEngine> = PolicyCollection::default();
    assert_eq!(collection.len(), 0);
    collection.extend(vec![allow_get_on_mybucket()]);
    collection.extend(vec![deny_all_on_secret(), policy(vec![])]);
    assert_eq!(
        collection,
        PolicyCollection(vec![allow_get_on_mybucket(), deny_all_on_secret(), policy(vec![])])
    );
    collection.extend(vec![]);
    assert_eq!(collection.len(), 3);
    collection.push(allow_get_on_mybucket());
    assert_eq!(collection.len(), 4);
    assert_eq!(collection[1], deny_all_on_secret());
    collection.clear();
    assert_eq!(collection, PolicyCollection(vec![]));
}
