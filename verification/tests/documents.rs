use rust_iam::aws::{AwsEngine, WildString};
use rust_iam::document::{Document, Field, SchemaError, Structured};
use rust_iam::{Effect, ParseError, Policy, PolicyCollection, ResourceAbstract, Statement};

fn text(s: &str) -> Document {
    Document::Text(s.to_string())
}

fn list(items: &[&str]) -> Document {
    Document::List(items.iter().map(|s| text(s)).collect())
}

fn field(name: &str, value: Document) -> Field {
    Field { name: name.to_string(), value }
}

fn statement_doc(effect: &str, actions: &[&str], resources: &[&str]) -> Document {
    Document::Record(vec![
        field("effect", text(effect)),
        field("actions", list(actions)),
        field("resources", list(resources)),
    ])
}

fn rule_of(effect: Effect, actions: &[&str], resources: &[&str]) -> Statement<AwsEngine> {
    Statement {
        effect,
        actions: actions.iter().map(|a| WildString(a.to_string())).collect(),
        resources: resources.iter().map(|r| ResourceAbstract::from_str(r).unwrap()).collect(),
    }
}

fn read_statement(doc: &Document) -> Result<Statement<AwsEngine>, SchemaError> {
    Statement::from_document(doc)
}

fn read_policy(doc: &Document) -> Result<Policy<AwsEngine>, SchemaError> {
    Policy::from_document(doc)
}

fn read_collection(doc: &Document) -> Result<PolicyCollection<AwsEngine>, SchemaError> {
    PolicyCollection::from_document(doc)
}

#[test]
fn effects_are_written_in_lower_case() {
    assert_eq!(Effect::from_document(&text("allow")), Ok(Effect::Allow));
    assert_eq!(Effect::from_document(&text("deny")), Ok(Effect::Deny));
    assert_eq!(Effect::from_document(&text("Allow")), Err(SchemaError::UnknownEffect("Allow".to_string())));
    assert_eq!(Effect::from_document(&text("")), Err(SchemaError::UnknownEffect("".to_string())));
    assert_eq!(Effect::from_document(&Document::Null), Err(SchemaError::WrongKind("a text")));
    assert_eq!(Effect::from_document(&Document::Boolean(true)), Err(SchemaError::WrongKind("a text")));
    assert_eq!(Effect::Allow.to_document(), text("allow"));
    assert_eq!(Effect::Deny.to_document(), text("deny"));
}

#[test]
fn a_statement_is_read_from_its_three_fields() {
    let doc = statement_doc("allow", &["s3:GetObject", "s3:List*"], &["arn:aws:s3:::mybucket/*"]);
    assert_eq!(
        read_statement(&doc),
        Ok(rule_of(Effect::Allow, &["s3:GetObject", "s3:List*"], &["arn:aws:s3:::mybucket/*"]))
    );
    // The order of the fields is free.
    let shuffled = Document::Record(vec![
        field("resources", list(&["arn:aws:s3"])),
        field("effect", text("deny")),
        field("actions", list(&[])),
    ]);
    assert_eq!(read_statement(&shuffled), Ok(rule_of(Effect::Deny, &[], &["arn:aws:s3"])));
}

#[test]
fn an_unknown_field_is_refused() {
    let doc = Document::Record(vec![
        field("effect", text("allow")),
        field("actions", list(&[])),
        field("resources", list(&[])),
        field("condition", Document::Null),
    ]);
    assert_eq!(read_statement(&doc), Err(SchemaError::UnknownField("condition".to_string())));
    let policy = Document::Record(vec![
        field("statements", Document::List(vec![])),
        field("id", text("7")),
    ]);
    assert_eq!(read_policy(&policy), Err(SchemaError::UnknownField("id".to_string())));
    // Names are taken as they are written.
    let upper = Document::Record(vec![field("Effect", text("allow"))]);
    assert_eq!(read_statement(&upper), Err(SchemaError::UnknownField("Effect".to_string())));
}

#[test]
fn a_missing_field_is_refused() {
    let none = Document::Record(vec![]);
    assert_eq!(read_statement(&none), Err(SchemaError::MissingField("effect")));
    let only_effect = Document::Record(vec![field("effect", text("allow"))]);
    assert_eq!(read_statement(&only_effect), Err(SchemaError::MissingField("actions")));
    let no_resources = Document::Record(vec![field("actions", list(&[])), field("effect", text("allow"))]);
    assert_eq!(read_statement(&no_resources), Err(SchemaError::MissingField("resources")));
    let no_effect = Document::Record(vec![field("actions", list(&[])), field("resources", list(&[]))]);
    assert_eq!(read_statement(&no_effect), Err(SchemaError::MissingField("effect")));
    assert_eq!(read_policy(&none), Err(SchemaError::MissingField("statements")));
    let only_name = Document::Record(vec![field("name", text("readers"))]);
    assert_eq!(read_policy(&only_name), Err(SchemaError::MissingField("statements")));
}

#[test]
fn the_first_fault_is_reported() {
    // A fault in a field comes before a field that is missing.
    let doc = Document::Record(vec![field("resources", list(&["notanarn"]))]);
    assert_eq!(read_statement(&doc), Err(SchemaError::InvalidResource(ParseError::InvalidFormat)));
    // Faults are found in the order of the fields.
    let two = Document::Record(vec![
        field("effect", text("maybe")),
        field("color", text("red")),
    ]);
    assert_eq!(read_statement(&two), Err(SchemaError::UnknownEffect("maybe".to_string())));
    let reversed = Document::Record(vec![
        field("color", text("red")),
        field("effect", text("maybe")),
    ]);
    assert_eq!(read_statement(&reversed), Err(SchemaError::UnknownField("color".to_string())));
    // And in the order of the values of a list.
    let resources = Document::Record(vec![field(
        "resources",
        Document::List(vec![text("arn:aws"), text("arn:aws:s3:atlantis"), text("notanarn")]),
    )]);
    assert_eq!(
        read_statement(&resources),
        Err(SchemaError::InvalidResource(ParseError::InvalidField("Invalid Region")))
    );
}

#[test]
fn values_of_another_kind_are_refused() {
    assert_eq!(read_statement(&Document::List(vec![])), Err(SchemaError::WrongKind("a record")));
    assert_eq!(read_statement(&text("allow")), Err(SchemaError::WrongKind("a record")));
    assert_eq!(read_policy(&Document::Null), Err(SchemaError::WrongKind("a record")));
    assert_eq!(read_collection(&Document::Record(vec![])), Err(SchemaError::WrongKind("a list")));
    let actions = Document::Record(vec![field("actions", text("s3:GetObject"))]);
    assert_eq!(read_statement(&actions), Err(SchemaError::WrongKind("a list")));
    let action = Document::Record(vec![field("actions", Document::List(vec![Document::Number("7".to_string())]))]);
    assert_eq!(read_statement(&action), Err(SchemaError::WrongKind("a text")));
    let resource = Document::Record(vec![field("resources", Document::List(vec![Document::Null]))]);
    assert_eq!(read_statement(&resource), Err(SchemaError::WrongKind("a text")));
    let name = Document::Record(vec![field("name", Document::Boolean(false))]);
    assert_eq!(read_policy(&name), Err(SchemaError::WrongKind("a text or nothing")));
    let statements = Document::Record(vec![field("statements", Document::Record(vec![]))]);
    assert_eq!(read_policy(&statements), Err(SchemaError::WrongKind("a list")));
}

#[test]
fn a_field_that_occurs_again_replaces_the_first() {
    let doc = Document::Record(vec![
        field("effect", text("allow")),
        field("actions", list(&["a"])),
        field("resources", list(&["arn:"])),
        field("effect", text("deny")),
        field("actions", list(&["b", "c"])),
    ]);
    assert_eq!(read_statement(&doc), Ok(rule_of(Effect::Deny, &["b", "c"], &["arn:"])));
    let policy = Document::Record(vec![
        field("name", text("first")),
        field("statements", Document::List(vec![])),
        field("name", Document::Null),
    ]);
    assert_eq!(read_policy(&policy), Ok(Policy { name: None, statements: vec![] }));
}

#[test]
fn a_policy_is_read_with_or_without_a_name() {
    let rule = statement_doc("allow", &["s3:GetObject"], &["arn:aws:s3:::mybucket/*"]);
    let named = Document::Record(vec![
        field("name", text("readers")),
        field("statements", Document::List(vec![rule])),
    ]);
    let expected = rule_of(Effect::Allow, &["s3:GetObject"], &["arn:aws:s3:::mybucket/*"]);
    assert_eq!(
        read_policy(&named),
        Ok(Policy { name: Some("readers".to_string()), statements: vec![expected.clone()] })
    );
    let rule = statement_doc("allow", &["s3:GetObject"], &["arn:aws:s3:::mybucket/*"]);
    let unnamed = Document::Record(vec![field("statements", Document::List(vec![rule]))]);
    assert_eq!(read_policy(&unnamed), Ok(Policy { name: None, statements: vec![expected.clone()] }));
    let rule = statement_doc("allow", &["s3:GetObject"], &["arn:aws:s3:::mybucket/*"]);
    let null_name = Document::Record(vec![
        field("statements", Document::List(vec![rule])),
        field("name", Document::Null),
    ]);
    assert_eq!(read_policy(&null_name), Ok(Policy { name: None, statements: vec![expected] }));
}

#[test]
fn a_fault_in_a_statement_is_the_fault_of_the_policy() {
    let good = statement_doc("allow", &[], &[]);
    let bad = statement_doc("allow", &[], &["arn:azure"]);
    let policy = Document::Record(vec![field("statements", Document::List(vec![good, bad]))]);
    assert_eq!(
        read_policy(&policy),
        Err(SchemaError::InvalidResource(ParseError::InvalidField("no match")))
    );
    let good = statement_doc("allow", &[], &[]);
    let policy = Document::Record(vec![field("statements", Document::List(vec![good, Document::Null]))]);
    assert_eq!(read_policy(&policy), Err(SchemaError::WrongKind("a record")));
    let collection = Document::List(vec![
        Document::Record(vec![field("statements", Document::List(vec![]))]),
        Document::Record(vec![field("statement", Document::List(vec![]))]),
    ]);
    assert_eq!(read_collection(&collection), Err(SchemaError::UnknownField("statement".to_string())));
}

#[test]
fn a_statement_is_written_with_its_three_fields() {
    let rule = rule_of(Effect::Deny, &["s3:*"], &["arn:aws:s3:::mybucket/secret/*", "arn:aws"]);
    assert_eq!(
        rule.to_document(),
        statement_doc("deny", &["s3:*"], &["arn:aws:s3:::mybucket/secret/*:", "arn:aws:::::"])
    );
    let empty = rule_of(Effect::Allow, &[], &[]);
    assert_eq!(empty.to_document(), statement_doc("allow", &[], &[]));
}

#[test]
fn a_policy_is_written_with_its_name() {
    let named: Policy<AwsEngine> = Policy { name: Some("readers".to_string()), statements: vec![] };
    assert_eq!(
        named.to_document(),
        Document::Record(vec![field("name", text("readers")), field("statements", Document::List(vec![]))])
    );
    let unnamed: Policy<AwsEngine> = Policy { name: None, statements: vec![rule_of(Effect::Allow, &["*"], &["arn:"])] };
    assert_eq!(
        unnamed.to_document(),
        Document::Record(vec![
            field("name", Document::Null),
            field("statements", Document::List(vec![statement_doc("allow", &["*"], &["arn::::::"])])),
        ])
    );
}

#[test]
fn what_is_written_reads_back() {
    let collection = PolicyCollection(vec![
        Policy {
            name: Some("readers".to_string()),
            statements: vec![
                rule_of(Effect::Allow, &["s3:GetObject", "s3:List*"], &["arn:aws:s3:::mybucket/*"]),
                rule_of(Effect::Deny, &["s3:*"], &["arn:aws:s3:::mybucket/secret/*", "arn:aws-cn"]),
            ],
        },
        Policy { name: None, statements: vec![] },
    ]);
    let written = collection.to_document();
    assert_eq!(read_collection(&written), Ok(collection));
    let nothing: PolicyCollection<AwsEngine> = PolicyCollection(vec![]);
    assert_eq!(nothing.to_document(), Document::List(vec![]));
    assert_eq!(read_collection(&Document::List(vec![])), Ok(nothing));
}

#[test]
fn an_action_is_taken_as_it_is_written() {
    let doc = statement_doc("allow", &[" Spaced ", ""], &[]);
    assert_eq!(read_statement(&doc), Ok(rule_of(Effect::Allow, &[" Spaced ", ""], &[])));
}

/// A domain whose actions are the names of regions.
#[derive(Debug, Default, Clone, Copy, PartialEq, Eq)]
struct RegionEngine;

impl rust_iam::EngineTrait for RegionEngine {
    type Action = rust_iam::aws::AwsRegion;
    type Partition = WildString;
    type Service = WildString;
    type Region = WildString;
    type AccountID = WildString;
    type ResourceType = WildString;
    type ResourceID = WildString;
}

#[test]
fn a_text_that_is_no_action_is_reported() {
    let doc = statement_doc("allow", &["ohio", "atlantis"], &[]);
    assert_eq!(
        Statement::<RegionEngine>::from_document(&doc),
        Err(SchemaError::InvalidIdentifier("Invalid Region"))
    );
    let doc = statement_doc("allow", &["ohio", " TOKYO "], &["arn:x"]);
    let read = Statement::<RegionEngine>::from_document(&doc).unwrap();
    assert_eq!(
        read.actions,
        vec![rust_iam::aws::AwsRegion::UsEastOhio, rust_iam::aws::AwsRegion::AsiaPacificTokyo]
    );
    assert_eq!(
        read.to_document(),
        statement_doc("allow", &["us-east-2", "ap-northeast-1"], &["arn:x:::::"])
    );
}

#[test]
fn errors_of_the_schema_have_messages() {
    assert_eq!(SchemaError::UnknownField("id".to_string()).message(), "unknown field `id`");
    assert_eq!(SchemaError::MissingField("effect").message(), "missing field `effect`");
    assert_eq!(SchemaError::WrongKind("a list").message(), "invalid type: expected a list");
    assert_eq!(
        SchemaError::UnknownEffect("maybe".to_string()).message(),
        "unknown effect `maybe`, expected `allow` or `deny`"
    );
    assert_eq!(SchemaError::InvalidIdentifier("Invalid Region").message(), "Invalid Region");
    assert_eq!(
        SchemaError::InvalidResource(ParseError::InvalidFormat).message(),
        "Invalid resource format: Resource name should start with 'arn:'"
    );
    assert_eq!(
        SchemaError::InvalidResource(ParseError::TooManyFields).message(),
        "Invalid resource format: Resource name should have at most six fields"
    );
    assert_eq!(SchemaError::InvalidResource(ParseError::InvalidField("no match")).message(), "no match");
}
