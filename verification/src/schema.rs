//! The structured form of policies: how effects, identifiers, resource
//! addresses, statements, policies and collections are read from documents
//! and written as documents. The schema is strict: a record may hold only
//! the fields named here.

use crate::document::{
    entry_views, lemma_document_view, lemma_list_round_trip, list_encoded, listed, read_list,
    survives, write_list, Document, DocumentView, Field, FieldView, SchemaError, SchemaFault,
    Structured,
};
use crate::effect::Effect;
use crate::engine::{views_of, EngineTrait, Identifier};
use crate::policy::{Policy, PolicyView};
use crate::policy_collection::{PolicyCollection, PolicyCollectionView};
use crate::resource::{ParseError, ResourceAbstract, ResourceView};
use crate::statement::{Statement, StatementView};
use crate::text::same_text;
use vstd::prelude::*;
use vstd::string::StringExecFns;

verus! {

/// What the fields of a record are read as, one after the other: `step`
/// takes what was read so far and the next field. The fault of the first
/// field that is refused is the fault of the record.
pub open spec fn record_scanned<D>(
    entries: Seq<FieldView>,
    start: D,
    step: spec_fn(D, FieldView) -> Result<D, SchemaFault>,
) -> Result<D, SchemaFault>
    decreases entries.len(),
{
    if entries.len() == 0 {
        Ok(start)
    } else {
        match record_scanned(entries.drop_last(), start, step) {
            Err(fault) => Err(fault),
            Ok(draft) => step(draft, entries.last()),
        }
    }
}

/// A fault found in the first fields of a record is the fault of the record.
pub proof fn lemma_record_fault_stays<D>(
    entries: Seq<FieldView>,
    start: D,
    step: spec_fn(D, FieldView) -> Result<D, SchemaFault>,
    n: int,
)
    requires
        0 <= n <= entries.len(),
        record_scanned(entries.take(n), start, step) is Err,
    ensures
        record_scanned(entries, start, step) == record_scanned(entries.take(n), start, step),
    decreases entries.len() - n,
{
    if n < entries.len() {
        assert(entries.take(n + 1).drop_last() == entries.take(n));
        lemma_record_fault_stays(entries, start, step, n + 1);
    } else {
        assert(entries.take(n) == entries);
    }
}

/// An effect is the text `allow` or the text `deny`, written exactly so.
impl Structured for Effect {
    open spec fn decoded(doc: DocumentView) -> Result<Effect, SchemaFault> {
        match doc {
            DocumentView::Text(text) => if text == "allow"@ {
                Ok(Effect::Allow)
            } else if text == "deny"@ {
                Ok(Effect::Deny)
            } else {
                Err(SchemaFault::UnknownEffect(text))
            },
            _ => Err(SchemaFault::WrongKind("a text")),
        }
    }

    fn from_document(doc: &Document) -> (r: Result<Effect, SchemaError>) {
        match doc {
            Document::Text(text) => {
                if same_text(text.as_str(), "allow") {
                    Ok(Effect::Allow)
                } else if same_text(text.as_str(), "deny") {
                    Ok(Effect::Deny)
                } else {
                    Err(SchemaError::UnknownEffect(text.clone()))
                }
            },
            _ => Err(SchemaError::WrongKind("a text")),
        }
    }

    open spec fn encoded(effect: Effect) -> DocumentView {
        match effect {
            Effect::Allow => DocumentView::Text("allow"@),
            Effect::Deny => DocumentView::Text("deny"@),
        }
    }

    fn to_document(&self) -> (doc: Document) {
        match self {
            Effect::Allow => Document::Text(String::from_str("allow")),
            Effect::Deny => Document::Text(String::from_str("deny")),
        }
    }
}

/// An identifier is the text that its type reads and writes.
impl<T: Identifier> Structured for T {
    open spec fn decoded(doc: DocumentView) -> Result<T::V, SchemaFault> {
        match doc {
            DocumentView::Text(text) => match T::parsed(text) {
                Ok(value) => Ok(value),
                Err(reason) => Err(SchemaFault::InvalidIdentifier(reason)),
            },
            _ => Err(SchemaFault::WrongKind("a text")),
        }
    }

    fn from_document(doc: &Document) -> (r: Result<Self, SchemaError>) {
        match doc {
            Document::Text(text) => match T::from_str(text.as_str()) {
                Ok(value) => Ok(value),
                Err(reason) => Err(SchemaError::InvalidIdentifier(reason)),
            },
            _ => Err(SchemaError::WrongKind("a text")),
        }
    }

    open spec fn encoded(value: T::V) -> DocumentView {
        DocumentView::Text(T::rendered(value))
    }

    fn to_document(&self) -> (doc: Document) {
        Document::Text(self.to_string())
    }
}

/// A resource address is its text, never a record of its fields.
impl<Engine: EngineTrait> Structured for ResourceAbstract<Engine> {
    open spec fn decoded(doc: DocumentView) -> Result<ResourceView<Engine>, SchemaFault> {
        match doc {
            DocumentView::Text(text) => match ResourceView::<Engine>::parsed(text) {
                Ok(resource) => Ok(resource),
                Err(e) => Err(SchemaFault::InvalidResource(e)),
            },
            _ => Err(SchemaFault::WrongKind("a text")),
        }
    }

    fn from_document(doc: &Document) -> (r: Result<Self, SchemaError>) {
        match doc {
            Document::Text(text) => match ResourceAbstract::<Engine>::from_str(text.as_str()) {
                Ok(resource) => Ok(resource),
                Err(e) => Err(SchemaError::InvalidResource(e)),
            },
            _ => Err(SchemaError::WrongKind("a text")),
        }
    }

    open spec fn encoded(resource: ResourceView<Engine>) -> DocumentView {
        DocumentView::Text(resource.rendered())
    }

    fn to_document(&self) -> (doc: Document) {
        Document::Text(self.to_string())
    }
}

/// The fields of a statement that were read so far.
pub struct StatementDraft<Engine: EngineTrait> {
    /// The effect, once the field `effect` was read.
    pub effect: Option<Effect>,
    /// The actions, once the field `actions` was read.
    pub actions: Option<Seq<<Engine::Action as View>::V>>,
    /// The resources, once the field `resources` was read.
    pub resources: Option<Seq<ResourceView<Engine>>>,
}

/// What one more field adds to a statement. A field that occurs again
/// replaces what was read before; a field of another name is refused.
pub open spec fn statement_field<Engine: EngineTrait>(
    draft: StatementDraft<Engine>,
    field: FieldView,
) -> Result<StatementDraft<Engine>, SchemaFault> {
    if field.name == "effect"@ {
        match Effect::decoded(field.value) {
            Ok(effect) => Ok(StatementDraft { effect: Some(effect), ..draft }),
            Err(fault) => Err(fault),
        }
    } else if field.name == "actions"@ {
        match listed::<Engine::Action>(field.value) {
            Ok(actions) => Ok(StatementDraft { actions: Some(actions), ..draft }),
            Err(fault) => Err(fault),
        }
    } else if field.name == "resources"@ {
        match listed::<ResourceAbstract<Engine>>(field.value) {
            Ok(resources) => Ok(StatementDraft { resources: Some(resources), ..draft }),
            Err(fault) => Err(fault),
        }
    } else {
        Err(SchemaFault::UnknownField(field.name))
    }
}

/// The views of a list that may not have been read yet.
pub open spec fn views_of_read<T: View>(list: Option<Vec<T>>) -> Option<Seq<T::V>> {
    match list {
        Some(items) => Some(views_of(items@)),
        None => None,
    }
}

/// A statement is a record with the fields `effect`, `actions` and
/// `resources` and no other. The fields are read in the order they are
/// written, and the first fault ends the reading; a field that is missing is
/// found at the end, `effect` before `actions` before `resources`.
impl<Engine: EngineTrait> Structured for Statement<Engine> {
    open spec fn decoded(doc: DocumentView) -> Result<StatementView<Engine>, SchemaFault> {
        match doc {
            DocumentView::Record(entries) => match record_scanned(
                entries,
                StatementDraft::<Engine> { effect: None, actions: None, resources: None },
                |draft: StatementDraft<Engine>, field: FieldView| statement_field(draft, field),
            ) {
                Err(fault) => Err(fault),
                Ok(draft) => if draft.effect is None {
                    Err(SchemaFault::MissingField("effect"))
                } else if draft.actions is None {
                    Err(SchemaFault::MissingField("actions"))
                } else if draft.resources is None {
                    Err(SchemaFault::MissingField("resources"))
                } else {
                    Ok(
                        StatementView {
                            effect: draft.effect->0,
                            actions: draft.actions->0,
                            resources: draft.resources->0,
                        },
                    )
                },
            },
            _ => Err(SchemaFault::WrongKind("a record")),
        }
    }

    fn from_document(doc: &Document) -> (r: Result<Self, SchemaError>) {
        let entries = match doc {
            Document::Record(entries) => entries,
            _ => {
                return Err(SchemaError::WrongKind("a record"));
            },
        };
        proof {
            lemma_document_view(*doc);
        }
        let ghost start = StatementDraft::<Engine> { effect: None, actions: None, resources: None };
        let ghost step = |draft: StatementDraft<Engine>, field: FieldView|
            statement_field(draft, field);
        let mut effect: Option<Effect> = None;
        let mut actions: Option<Vec<Engine::Action>> = None;
        let mut resources: Option<Vec<ResourceAbstract<Engine>>> = None;
        let mut i: usize = 0;
        while i < entries.len()
            invariant
                i <= entries@.len(),
                doc@ == DocumentView::Record(entry_views(entries@)),
                start == (StatementDraft::<Engine> {
                    effect: None,
                    actions: None,
                    resources: None,
                }),
                step == |draft: StatementDraft<Engine>, field: FieldView|
                    statement_field(draft, field),
                record_scanned(entry_views(entries@).take(i as int), start, step) == Ok::<
                    StatementDraft<Engine>,
                    SchemaFault,
                >(
                    StatementDraft {
                        effect,
                        actions: views_of_read(actions),
                        resources: views_of_read(resources),
                    },
                ),
            decreases entries@.len() - i,
        {
            proof {
                assert(entry_views(entries@).take(i + 1).drop_last() == entry_views(entries@).take(
                    i as int,
                ));
                assert(entry_views(entries@).take(i + 1).last() == FieldView {
                    name: entries@[i as int].name@,
                    value: entries@[i as int].value@,
                });
            }
            let field = &entries[i];
            if same_text(field.name.as_str(), "effect") {
                match Effect::from_document(&field.value) {
                    Ok(read) => {
                        effect = Some(read);
                    },
                    Err(e) => {
                        proof {
                            lemma_record_fault_stays(entry_views(entries@), start, step, i + 1);
                        }
                        return Err(e);
                    },
                }
            } else if same_text(field.name.as_str(), "actions") {
                match read_list::<Engine::Action>(&field.value) {
                    Ok(read) => {
                        actions = Some(read);
                    },
                    Err(e) => {
                        proof {
                            lemma_record_fault_stays(entry_views(entries@), start, step, i + 1);
                        }
                        return Err(e);
                    },
                }
            } else if same_text(field.name.as_str(), "resources") {
                match read_list::<ResourceAbstract<Engine>>(&field.value) {
                    Ok(read) => {
                        resources = Some(read);
                    },
                    Err(e) => {
                        proof {
                            lemma_record_fault_stays(entry_views(entries@), start, step, i + 1);
                        }
                        return Err(e);
                    },
                }
            } else {
                proof {
                    lemma_record_fault_stays(entry_views(entries@), start, step, i + 1);
                }
                return Err(SchemaError::UnknownField(field.name.clone()));
            }
            i += 1;
        }
        proof {
            assert(entry_views(entries@).take(i as int) == entry_views(entries@));
        }
        let effect = match effect {
            Some(effect) => effect,
            None => {
                return Err(SchemaError::MissingField("effect"));
            },
        };
        let actions = match actions {
            Some(actions) => actions,
            None => {
                return Err(SchemaError::MissingField("actions"));
            },
        };
        let resources = match resources {
            Some(resources) => resources,
            None => {
                return Err(SchemaError::MissingField("resources"));
            },
        };
        Ok(Statement { effect, actions, resources })
    }

    /// The three fields in the order `effect`, `actions`, `resources`, the
    /// actions and the resource addresses as texts.
    open spec fn encoded(statement: StatementView<Engine>) -> DocumentView {
        DocumentView::Record(
            seq![
                FieldView { name: "effect"@, value: Effect::encoded(statement.effect) },
                FieldView {
                    name: "actions"@,
                    value: list_encoded::<Engine::Action>(statement.actions),
                },
                FieldView {
                    name: "resources"@,
                    value: list_encoded::<ResourceAbstract<Engine>>(statement.resources),
                },
            ],
        )
    }

    fn to_document(&self) -> (doc: Document) {
        let mut entries: Vec<Field> = Vec::new();
        entries.push(Field { name: String::from_str("effect"), value: self.effect.to_document() });
        entries.push(Field { name: String::from_str("actions"), value: write_list(&self.actions) });
        entries.push(
            Field { name: String::from_str("resources"), value: write_list(&self.resources) },
        );
        let doc = Document::Record(entries);
        proof {
            lemma_document_view(doc);
            assert(entry_views(entries@) == Self::encoded(self@)->Record_0);
        }
        doc
    }
}

/// The name that a document gives to a policy: a text, or nothing.
pub open spec fn name_decoded(doc: DocumentView) -> Result<Option<Seq<char>>, SchemaFault> {
    match doc {
        DocumentView::Null => Ok(None),
        DocumentView::Text(text) => Ok(Some(text)),
        _ => Err(SchemaFault::WrongKind("a text or nothing")),
    }
}

/// The document that gives a name, or none, to a policy.
pub open spec fn name_encoded(name: Option<Seq<char>>) -> DocumentView {
    match name {
        Some(text) => DocumentView::Text(text),
        None => DocumentView::Null,
    }
}

/// The characters of a name that may be absent.
pub open spec fn name_view(name: Option<String>) -> Option<Seq<char>> {
    match name {
        Some(text) => Some(text@),
        None => None,
    }
}

fn read_name(doc: &Document) -> (r: Result<Option<String>, SchemaError>)
    ensures
        match r {
            Ok(name) => name_decoded(doc@) == Ok::<Option<Seq<char>>, SchemaFault>(name_view(name)),
            Err(e) => name_decoded(doc@) == Err::<Option<Seq<char>>, SchemaFault>(e@),
        },
{
    match doc {
        Document::Null => Ok(None),
        Document::Text(text) => Ok(Some(text.clone())),
        _ => Err(SchemaError::WrongKind("a text or nothing")),
    }
}

/// The fields of a policy that were read so far.
pub struct PolicyDraft<Engine: EngineTrait> {
    /// The name that was read last, if a name was read and was not nothing.
    pub name: Option<Seq<char>>,
    /// The statements, once the field `statements` was read.
    pub statements: Option<Seq<StatementView<Engine>>>,
}

/// What one more field adds to a policy. A field that occurs again replaces
/// what was read before; a field of another name is refused.
pub open spec fn policy_field<Engine: EngineTrait>(
    draft: PolicyDraft<Engine>,
    field: FieldView,
) -> Result<PolicyDraft<Engine>, SchemaFault> {
    if field.name == "name"@ {
        match name_decoded(field.value) {
            Ok(name) => Ok(PolicyDraft { name, ..draft }),
            Err(fault) => Err(fault),
        }
    } else if field.name == "statements"@ {
        match listed::<Statement<Engine>>(field.value) {
            Ok(statements) => Ok(PolicyDraft { statements: Some(statements), ..draft }),
            Err(fault) => Err(fault),
        }
    } else {
        Err(SchemaFault::UnknownField(field.name))
    }
}

/// A policy is a record with the field `statements`, with the field `name`
/// or without it, and with no other field. A policy without the field
/// `name` has no name, and so has one whose name is nothing.
impl<Engine: EngineTrait> Structured for Policy<Engine> {
    open spec fn decoded(doc: DocumentView) -> Result<PolicyView<Engine>, SchemaFault> {
        match doc {
            DocumentView::Record(entries) => match record_scanned(
                entries,
                PolicyDraft::<Engine> { name: None, statements: None },
                |draft: PolicyDraft<Engine>, field: FieldView| policy_field(draft, field),
            ) {
                Err(fault) => Err(fault),
                Ok(draft) => if draft.statements is None {
                    Err(SchemaFault::MissingField("statements"))
                } else {
                    Ok(PolicyView { name: draft.name, statements: draft.statements->0 })
                },
            },
            _ => Err(SchemaFault::WrongKind("a record")),
        }
    }

    fn from_document(doc: &Document) -> (r: Result<Self, SchemaError>) {
        let entries = match doc {
            Document::Record(entries) => entries,
            _ => {
                return Err(SchemaError::WrongKind("a record"));
            },
        };
        proof {
            lemma_document_view(*doc);
        }
        let ghost start = PolicyDraft::<Engine> { name: None, statements: None };
        let ghost step = |draft: PolicyDraft<Engine>, field: FieldView| policy_field(draft, field);
        let mut name: Option<String> = None;
        let mut statements: Option<Vec<Statement<Engine>>> = None;
        let mut i: usize = 0;
        while i < entries.len()
            invariant
                i <= entries@.len(),
                doc@ == DocumentView::Record(entry_views(entries@)),
                start == (PolicyDraft::<Engine> { name: None, statements: None }),
                step == |draft: PolicyDraft<Engine>, field: FieldView| policy_field(draft, field),
                record_scanned(entry_views(entries@).take(i as int), start, step) == Ok::<
                    PolicyDraft<Engine>,
                    SchemaFault,
                >(PolicyDraft { name: name_view(name), statements: views_of_read(statements) }),
            decreases entries@.len() - i,
        {
            proof {
                assert(entry_views(entries@).take(i + 1).drop_last() == entry_views(entries@).take(
                    i as int,
                ));
                assert(entry_views(entries@).take(i + 1).last() == FieldView {
                    name: entries@[i as int].name@,
                    value: entries@[i as int].value@,
                });
            }
            let field = &entries[i];
            if same_text(field.name.as_str(), "name") {
                match read_name(&field.value) {
                    Ok(read) => {
                        name = read;
                    },
                    Err(e) => {
                        proof {
                            lemma_record_fault_stays(entry_views(entries@), start, step, i + 1);
                        }
                        return Err(e);
                    },
                }
            } else if same_text(field.name.as_str(), "statements") {
                match read_list::<Statement<Engine>>(&field.value) {
                    Ok(read) => {
                        statements = Some(read);
                    },
                    Err(e) => {
                        proof {
                            lemma_record_fault_stays(entry_views(entries@), start, step, i + 1);
                        }
                        return Err(e);
                    },
                }
            } else {
                proof {
                    lemma_record_fault_stays(entry_views(entries@), start, step, i + 1);
                }
                return Err(SchemaError::UnknownField(field.name.clone()));
            }
            i += 1;
        }
        proof {
            assert(entry_views(entries@).take(i as int) == entry_views(entries@));
        }
        let statements = match statements {
            Some(statements) => statements,
            None => {
                return Err(SchemaError::MissingField("statements"));
            },
        };
        Ok(Policy { name, statements })
    }

    /// The field `name`, holding nothing where the policy has no name, and
    /// the field `statements`.
    open spec fn encoded(policy: PolicyView<Engine>) -> DocumentView {
        DocumentView::Record(
            seq![
                FieldView { name: "name"@, value: name_encoded(policy.name) },
                FieldView {
                    name: "statements"@,
                    value: list_encoded::<Statement<Engine>>(policy.statements),
                },
            ],
        )
    }

    fn to_document(&self) -> (doc: Document) {
        let name = match &self.name {
            Some(name) => Document::Text(name.clone()),
            None => Document::Null,
        };
        let mut entries: Vec<Field> = Vec::new();
        entries.push(Field { name: String::from_str("name"), value: name });
        entries.push(
            Field { name: String::from_str("statements"), value: write_list(&self.statements) },
        );
        let doc = Document::Record(entries);
        proof {
            lemma_document_view(doc);
            assert(entry_views(entries@) == Self::encoded(self@)->Record_0);
        }
        doc
    }
}

/// A collection is the list of its policies.
impl<Engine: EngineTrait> Structured for PolicyCollection<Engine> {
    open spec fn decoded(doc: DocumentView) -> Result<PolicyCollectionView<Engine>, SchemaFault> {
        match listed::<Policy<Engine>>(doc) {
            Ok(policies) => Ok(PolicyCollectionView { policies }),
            Err(fault) => Err(fault),
        }
    }

    fn from_document(doc: &Document) -> (r: Result<Self, SchemaError>) {
        match read_list::<Policy<Engine>>(doc) {
            Ok(policies) => Ok(PolicyCollection(policies)),
            Err(e) => Err(e),
        }
    }

    open spec fn encoded(collection: PolicyCollectionView<Engine>) -> DocumentView {
        list_encoded::<Policy<Engine>>(collection.policies)
    }

    fn to_document(&self) -> (doc: Document) {
        write_list(&self.0)
    }
}

/// Every action and every resource address of the statement survives being
/// written as text and read again.
pub open spec fn statement_reads_back<Engine: EngineTrait>(
    statement: StatementView<Engine>,
) -> bool {
    &&& forall|i: int|
        0 <= i < statement.actions.len() ==> survives::<Engine::Action>(
            #[trigger] statement.actions[i],
        )
    &&& forall|j: int|
        0 <= j < statement.resources.len() ==> survives::<ResourceAbstract<Engine>>(
            #[trigger] statement.resources[j],
        )
}

/// Every statement of the policy reads back.
pub open spec fn policy_reads_back<Engine: EngineTrait>(policy: PolicyView<Engine>) -> bool {
    forall|i: int|
        0 <= i < policy.statements.len() ==> statement_reads_back(#[trigger] policy.statements[i])
}

/// Every policy of the collection reads back.
pub open spec fn collection_reads_back<Engine: EngineTrait>(
    collection: PolicyCollectionView<Engine>,
) -> bool {
    forall|i: int|
        0 <= i < collection.policies.len() ==> policy_reads_back(#[trigger] collection.policies[i])
}

/// An identifier survives the trip through a document exactly if it
/// survives the trip through text, and so does a resource address.
pub proof fn lemma_texts_survive<Engine: EngineTrait>(
    action: <Engine::Action as View>::V,
    resource: ResourceView<Engine>,
)
    ensures
        survives::<Engine::Action>(action) <==> Engine::Action::parsed(
            Engine::Action::rendered(action),
        ) == Ok::<<Engine::Action as View>::V, &'static str>(action),
        survives::<ResourceAbstract<Engine>>(resource) <==> ResourceView::<Engine>::parsed(
            resource.rendered(),
        ) == Ok::<ResourceView<Engine>, ParseError>(resource),
{
}

/// An effect that is written and read again is the same effect.
pub proof fn lemma_effect_round_trip(effect: Effect)
    ensures
        survives::<Effect>(effect),
{
    reveal_strlit("allow");
    reveal_strlit("deny");
    assert("deny"@[0] != "allow"@[0]);
}

/// A statement that is written and read again is the same statement,
/// provided its actions and its resource addresses survive the trip through
/// text.
pub proof fn lemma_statement_round_trip<Engine: EngineTrait>(statement: StatementView<Engine>)
    requires
        statement_reads_back(statement),
    ensures
        survives::<Statement<Engine>>(statement),
{
    let entries = Statement::<Engine>::encoded(statement)->Record_0;
    let start = StatementDraft::<Engine> { effect: None, actions: None, resources: None };
    let step = |draft: StatementDraft<Engine>, field: FieldView| statement_field(draft, field);
    reveal_strlit("effect");
    reveal_strlit("actions");
    reveal_strlit("resources");
    assert("actions"@[0] != "effect"@[0]);
    assert("resources"@[0] != "effect"@[0]);
    assert("resources"@[0] != "actions"@[0]);
    lemma_effect_round_trip(statement.effect);
    lemma_list_round_trip::<Engine::Action>(statement.actions);
    lemma_list_round_trip::<ResourceAbstract<Engine>>(statement.resources);
    let none = entries.take(0);
    let one = entries.take(1);
    let two = entries.take(2);
    assert(record_scanned(none, start, step) == Ok::<StatementDraft<Engine>, SchemaFault>(start));
    assert(one.drop_last() == none);
    assert(record_scanned(one, start, step) == Ok::<StatementDraft<Engine>, SchemaFault>(
        StatementDraft { effect: Some(statement.effect), actions: None, resources: None },
    ));
    assert(two.drop_last() == one);
    assert(record_scanned(two, start, step) == Ok::<StatementDraft<Engine>, SchemaFault>(
        StatementDraft {
            effect: Some(statement.effect),
            actions: Some(statement.actions),
            resources: None,
        },
    ));
    assert(entries.drop_last() == two);
    assert(record_scanned(entries, start, step) == Ok::<StatementDraft<Engine>, SchemaFault>(
        StatementDraft {
            effect: Some(statement.effect),
            actions: Some(statement.actions),
            resources: Some(statement.resources),
        },
    ));
}

/// A policy that is written and read again is the same policy, provided
/// its statements read back.
pub proof fn lemma_policy_round_trip<Engine: EngineTrait>(policy: PolicyView<Engine>)
    requires
        policy_reads_back(policy),
    ensures
        survives::<Policy<Engine>>(policy),
{
    let entries = Policy::<Engine>::encoded(policy)->Record_0;
    let start = PolicyDraft::<Engine> { name: None, statements: None };
    let step = |draft: PolicyDraft<Engine>, field: FieldView| policy_field(draft, field);
    reveal_strlit("name");
    reveal_strlit("statements");
    assert("statements"@[0] != "name"@[0]);
    assert forall|i: int| 0 <= i < policy.statements.len() implies survives::<Statement<Engine>>(
        #[trigger] policy.statements[i],
    ) by {
        lemma_statement_round_trip(policy.statements[i]);
    }
    lemma_list_round_trip::<Statement<Engine>>(policy.statements);
    let none = entries.take(0);
    let one = entries.take(1);
    assert(record_scanned(none, start, step) == Ok::<PolicyDraft<Engine>, SchemaFault>(start));
    assert(one.drop_last() == none);
    assert(record_scanned(one, start, step) == Ok::<PolicyDraft<Engine>, SchemaFault>(
        PolicyDraft { name: policy.name, statements: None },
    ));
    assert(entries.drop_last() == one);
    assert(record_scanned(entries, start, step) == Ok::<PolicyDraft<Engine>, SchemaFault>(
        PolicyDraft { name: policy.name, statements: Some(policy.statements) },
    ));
}

/// A collection that is written and read again is the same collection,
/// provided its policies read back.
pub proof fn lemma_collection_round_trip<Engine: EngineTrait>(
    collection: PolicyCollectionView<Engine>,
)
    requires
        collection_reads_back(collection),
    ensures
        survives::<PolicyCollection<Engine>>(collection),
{
    assert forall|i: int| 0 <= i < collection.policies.len() implies survives::<Policy<Engine>>(
        #[trigger] collection.policies[i],
    ) by {
        lemma_policy_round_trip(collection.policies[i]);
    }
    lemma_list_round_trip::<Policy<Engine>>(collection.policies);
}

} // verus!
