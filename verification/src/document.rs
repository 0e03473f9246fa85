//! Structured documents: what a policy is read from and written to.

use crate::engine::views_of;
use crate::resource::ParseError;
use vstd::prelude::*;
use vstd::string::StringExecFns;

verus! {

/// A value of a structured document.
#[derive(Debug, PartialEq, Eq)]
pub enum Document {
    /// Nothing.
    Null,
    /// A truth value.
    Boolean(bool),
    /// A number, as it was written.
    Number(String),
    /// A text.
    Text(String),
    /// A list of values.
    List(Vec<Document>),
    /// Named values, in the order they were written. A name may occur more
    /// than once.
    Record(Vec<Field>),
}

/// A named value of a record.
#[derive(Debug, PartialEq, Eq)]
pub struct Field {
    /// The name.
    pub name: String,
    /// The value.
    pub value: Document,
}

/// What a document holds.
pub enum DocumentView {
    /// Nothing.
    Null,
    /// A truth value.
    Boolean(bool),
    /// The characters of a number.
    Number(Seq<char>),
    /// The characters of a text.
    Text(Seq<char>),
    /// What the values of a list hold, in order.
    List(Seq<DocumentView>),
    /// What the named values of a record hold, in order.
    Record(Seq<FieldView>),
}

/// What a named value holds.
pub struct FieldView {
    /// The characters of the name.
    pub name: Seq<char>,
    /// What the value holds.
    pub value: DocumentView,
}

impl View for Document {
    type V = DocumentView;

    open spec fn view(&self) -> DocumentView
        decreases self,
    {
        match self {
            Document::Null => DocumentView::Null,
            Document::Boolean(b) => DocumentView::Boolean(*b),
            Document::Number(n) => DocumentView::Number(n@),
            Document::Text(t) => DocumentView::Text(t@),
            Document::List(items) => DocumentView::List(
                Seq::new(
                    items@.len(),
                    |i: int|
                        if 0 <= i < items@.len() {
                            items@[i].view()
                        } else {
                            DocumentView::Null
                        },
                ),
            ),
            Document::Record(entries) => DocumentView::Record(
                Seq::new(
                    entries@.len(),
                    |i: int|
                        if 0 <= i < entries@.len() {
                            FieldView { name: entries@[i].name@, value: entries@[i].value.view() }
                        } else {
                            FieldView { name: Seq::empty(), value: DocumentView::Null }
                        },
                ),
            ),
        }
    }
}

/// The views of the named values of a record.
pub open spec fn entry_views(entries: Seq<Field>) -> Seq<FieldView> {
    Seq::new(entries.len(), |i: int| FieldView { name: entries[i].name@, value: entries[i].value@ })
}

/// The views of the values of a list.
pub open spec fn item_views(items: Seq<Document>) -> Seq<DocumentView> {
    Seq::new(items.len(), |i: int| items[i]@)
}

/// What the view of a list and of a record is made of.
pub proof fn lemma_document_view(doc: Document)
    ensures
        doc matches Document::List(items) ==> doc@ == DocumentView::List(item_views(items@)),
        doc matches Document::Record(entries) ==> doc@ == DocumentView::Record(
            entry_views(entries@),
        ),
{
    match doc {
        Document::List(items) => {
            assert(doc@->List_0 =~= item_views(items@));
        },
        Document::Record(entries) => {
            let views = doc@->Record_0;
            assert(views =~= entry_views(entries@));
        },
        _ => {},
    }
}

/// Why a document is not what was to be read from it.
#[derive(Debug, PartialEq, Eq, Clone)]
pub enum SchemaError {
    /// A record names a field that the schema does not know.
    UnknownField(String),
    /// A record lacks a field that the schema requires.
    MissingField(&'static str),
    /// A value is of another kind than the one to be read; the kind that was
    /// expected is named.
    WrongKind(&'static str),
    /// A text names no effect.
    UnknownEffect(String),
    /// A text is no identifier of the type to be read; the message of that
    /// type is kept.
    InvalidIdentifier(&'static str),
    /// A text is no resource address.
    InvalidResource(ParseError),
}

/// What a schema error holds.
pub enum SchemaFault {
    /// The characters of the name that is not known.
    UnknownField(Seq<char>),
    /// The name of the field that is missing.
    MissingField(&'static str),
    /// The kind that was expected.
    WrongKind(&'static str),
    /// The characters of the text that names no effect.
    UnknownEffect(Seq<char>),
    /// The message of the identifier type.
    InvalidIdentifier(&'static str),
    /// Why the text is no resource address.
    InvalidResource(ParseError),
}

impl View for SchemaError {
    type V = SchemaFault;

    open spec fn view(&self) -> SchemaFault {
        match self {
            SchemaError::UnknownField(name) => SchemaFault::UnknownField(name@),
            SchemaError::MissingField(name) => SchemaFault::MissingField(name),
            SchemaError::WrongKind(expected) => SchemaFault::WrongKind(expected),
            SchemaError::UnknownEffect(text) => SchemaFault::UnknownEffect(text@),
            SchemaError::InvalidIdentifier(reason) => SchemaFault::InvalidIdentifier(reason),
            SchemaError::InvalidResource(e) => SchemaFault::InvalidResource(*e),
        }
    }
}

/// The message of a fault.
pub open spec fn message_of(fault: SchemaFault) -> Seq<char> {
    match fault {
        SchemaFault::UnknownField(name) => "unknown field `"@ + name + "`"@,
        SchemaFault::MissingField(name) => "missing field `"@ + name@ + "`"@,
        SchemaFault::WrongKind(expected) => "invalid type: expected "@ + expected@,
        SchemaFault::UnknownEffect(text) => "unknown effect `"@ + text
            + "`, expected `allow` or `deny`"@,
        SchemaFault::InvalidIdentifier(reason) => reason@,
        SchemaFault::InvalidResource(e) => e.message_of()@,
    }
}

impl SchemaError {
    /// The message of the error.
    pub fn message(&self) -> (text: String)
        ensures
            text@ == message_of(self@),
    {
        match self {
            SchemaError::UnknownField(name) => {
                let mut text = String::from_str("unknown field `");
                text.append(name.as_str());
                text.append("`");
                text
            },
            SchemaError::MissingField(name) => {
                let mut text = String::from_str("missing field `");
                text.append(name);
                text.append("`");
                text
            },
            SchemaError::WrongKind(expected) => {
                let mut text = String::from_str("invalid type: expected ");
                text.append(expected);
                text
            },
            SchemaError::UnknownEffect(found) => {
                let mut text = String::from_str("unknown effect `");
                text.append(found.as_str());
                text.append("`, expected `allow` or `deny`");
                text
            },
            SchemaError::InvalidIdentifier(reason) => String::from_str(reason),
            SchemaError::InvalidResource(e) => String::from_str(e.message()),
        }
    }
}

/// A result of reading, with views in place of the value and of the error.
pub open spec fn view_of_reading<T: View>(r: Result<T, SchemaError>) -> Result<T::V, SchemaFault> {
    match r {
        Ok(value) => Ok(value@),
        Err(e) => Err(e@),
    }
}

/// What a list of values is read as, each value by `read`: the values that
/// were read, in order, or the fault of the first value that is refused.
pub open spec fn list_decoded<V>(
    items: Seq<DocumentView>,
    read: spec_fn(DocumentView) -> Result<V, SchemaFault>,
) -> Result<Seq<V>, SchemaFault>
    decreases items.len(),
{
    if items.len() == 0 {
        Ok(Seq::empty())
    } else {
        match list_decoded(items.drop_last(), read) {
            Err(fault) => Err(fault),
            Ok(front) => match read(items.last()) {
                Err(fault) => Err(fault),
                Ok(value) => Ok(front.push(value)),
            },
        }
    }
}

/// A fault found in the first values of a list is the fault of the list.
pub proof fn lemma_list_fault_stays<V>(
    items: Seq<DocumentView>,
    read: spec_fn(DocumentView) -> Result<V, SchemaFault>,
    n: int,
)
    requires
        0 <= n <= items.len(),
        list_decoded(items.take(n), read) is Err,
    ensures
        list_decoded(items, read) == list_decoded(items.take(n), read),
    decreases items.len() - n,
{
    if n < items.len() {
        assert(items.take(n + 1).drop_last() == items.take(n));
        lemma_list_fault_stays(items, read, n + 1);
    } else {
        assert(items.take(n) == items);
    }
}

/// A list that is read holds one value for each value of the document, the
/// one that `read` gives; and a list is read exactly if each of its values
/// is.
pub proof fn lemma_list_decoded_each<V>(
    items: Seq<DocumentView>,
    read: spec_fn(DocumentView) -> Result<V, SchemaFault>,
)
    ensures
        list_decoded(items, read) matches Ok(values) ==> {
            &&& values.len() == items.len()
            &&& forall|i: int|
                0 <= i < items.len() ==> read(#[trigger] items[i]) == Ok::<V, SchemaFault>(
                    values[i],
                )
        },
        list_decoded(items, read) is Ok <==> forall|i: int|
            0 <= i < items.len() ==> read(#[trigger] items[i]) is Ok,
    decreases items.len(),
{
    if items.len() > 0 {
        let front = items.drop_last();
        lemma_list_decoded_each(front, read);
        assert forall|i: int| 0 <= i < front.len() implies front[i] == items[i] by {}
        if list_decoded(items, read) is Ok {
            assert forall|i: int| 0 <= i < items.len() implies read(#[trigger] items[i]) is Ok by {
                if i < front.len() {
                    assert(front[i] == items[i]);
                }
            }
        }
        if forall|i: int| 0 <= i < items.len() ==> read(#[trigger] items[i]) is Ok {
            assert forall|i: int| 0 <= i < front.len() implies read(#[trigger] front[i]) is Ok by {
                assert(front[i] == items[i]);
            }
            assert(read(items[items.len() - 1]) is Ok);
        }
    }
}

/// A list each of whose values is read is read as the list of what they
/// are read as.
pub proof fn lemma_list_decoded_all<V>(
    items: Seq<DocumentView>,
    read: spec_fn(DocumentView) -> Result<V, SchemaFault>,
    values: Seq<V>,
)
    requires
        items.len() == values.len(),
        forall|i: int|
            0 <= i < items.len() ==> read(#[trigger] items[i]) == Ok::<V, SchemaFault>(values[i]),
    ensures
        list_decoded(items, read) == Ok::<Seq<V>, SchemaFault>(values),
    decreases items.len(),
{
    if items.len() == 0 {
        assert(values == Seq::<V>::empty());
    } else {
        let front = items.drop_last();
        assert forall|i: int| 0 <= i < front.len() implies read(#[trigger] front[i]) == Ok::<
            V,
            SchemaFault,
        >(values.drop_last()[i]) by {
            assert(front[i] == items[i]);
        }
        lemma_list_decoded_all(front, read, values.drop_last());
        assert(read(items[items.len() - 1]) == Ok::<V, SchemaFault>(values[items.len() - 1]));
        assert(values.drop_last().push(values.last()) == values);
    }
}

/// What is read from a document and written as one.
pub trait Structured: View + Sized {
    /// What a document is read as, or why it is refused.
    spec fn decoded(doc: DocumentView) -> Result<Self::V, SchemaFault>;

    /// Reads a value from a document.
    fn from_document(doc: &Document) -> (r: Result<Self, SchemaError>)
        ensures
            view_of_reading(r) == Self::decoded(doc@),
    ;

    /// The document that stands for a value.
    spec fn encoded(value: Self::V) -> DocumentView;

    /// Writes the value as a document.
    fn to_document(&self) -> (doc: Document)
        ensures
            doc@ == Self::encoded(self@),
    ;
}

/// The value survives being written as a document and read again.
pub open spec fn survives<T: Structured>(value: T::V) -> bool {
    T::decoded(T::encoded(value)) == Ok::<T::V, SchemaFault>(value)
}

/// What a document is read as where a list is expected: each of its values
/// is read as a `T`, and the first that is refused decides.
pub open spec fn listed<T: Structured>(doc: DocumentView) -> Result<Seq<T::V>, SchemaFault> {
    match doc {
        DocumentView::List(items) => list_decoded(items, |item: DocumentView| T::decoded(item)),
        _ => Err(SchemaFault::WrongKind("a list")),
    }
}

/// The list that stands for some values, in order.
pub open spec fn list_encoded<T: Structured>(values: Seq<T::V>) -> DocumentView {
    DocumentView::List(Seq::new(values.len(), |i: int| T::encoded(values[i])))
}

/// Reads a list of values, each as a `T`.
pub fn read_list<T: Structured>(doc: &Document) -> (r: Result<Vec<T>, SchemaError>)
    ensures
        match r {
            Ok(values) => listed::<T>(doc@) == Ok::<Seq<T::V>, SchemaFault>(views_of(values@)),
            Err(e) => listed::<T>(doc@) == Err::<Seq<T::V>, SchemaFault>(e@),
        },
{
    let items = match doc {
        Document::List(items) => items,
        _ => {
            return Err(SchemaError::WrongKind("a list"));
        },
    };
    proof {
        lemma_document_view(*doc);
    }
    let ghost read = |item: DocumentView| T::decoded(item);
    let mut values: Vec<T> = Vec::new();
    let mut i: usize = 0;
    proof {
        assert(views_of(values@) == Seq::<T::V>::empty());
    }
    while i < items.len()
        invariant
            i <= items@.len(),
            doc@ == DocumentView::List(item_views(items@)),
            read == |item: DocumentView| T::decoded(item),
            list_decoded(item_views(items@).take(i as int), read) == Ok::<Seq<T::V>, SchemaFault>(
                views_of(values@),
            ),
        decreases items@.len() - i,
    {
        let ghost before = views_of(values@);
        proof {
            assert(item_views(items@).take(i + 1).drop_last() == item_views(items@).take(i as int));
        }
        match T::from_document(&items[i]) {
            Ok(value) => {
                values.push(value);
                proof {
                    assert(views_of(values@) == before.push(value@));
                }
            },
            Err(e) => {
                proof {
                    lemma_list_fault_stays(item_views(items@), read, i + 1);
                }
                return Err(e);
            },
        }
        i += 1;
    }
    proof {
        assert(item_views(items@).take(i as int) == item_views(items@));
    }
    Ok(values)
}

/// Writes some values as a list.
pub fn write_list<T: Structured>(values: &Vec<T>) -> (doc: Document)
    ensures
        doc@ == list_encoded::<T>(views_of(values@)),
{
    let mut items: Vec<Document> = Vec::new();
    let mut i: usize = 0;
    while i < values.len()
        invariant
            i <= values@.len(),
            items@.len() == i,
            forall|k: int| 0 <= k < i ==> (#[trigger] items@[k])@ == T::encoded(values@[k]@),
        decreases values@.len() - i,
    {
        items.push(values[i].to_document());
        i += 1;
    }
    let doc = Document::List(items);
    proof {
        lemma_document_view(doc);
        assert(item_views(items@) =~= Seq::new(
            views_of(values@).len(),
            |i: int| T::encoded(views_of(values@)[i]),
        ));
    }
    doc
}

/// A list of values that read back reads back as a list.
pub proof fn lemma_list_round_trip<T: Structured>(values: Seq<T::V>)
    requires
        forall|i: int| 0 <= i < values.len() ==> survives::<T>(#[trigger] values[i]),
    ensures
        listed::<T>(list_encoded::<T>(values)) == Ok::<Seq<T::V>, SchemaFault>(values),
{
    let items = list_encoded::<T>(values)->List_0;
    assert forall|i: int| 0 <= i < items.len() implies T::decoded(#[trigger] items[i]) == Ok::<
        T::V,
        SchemaFault,
    >(values[i]) by {
        assert(survives::<T>(values[i]));
    }
    lemma_list_decoded_all(items, |item: DocumentView| T::decoded(item), values);
}

} // verus!
