//! Resource addresses: six optional identifiers, with their matching rule.

use crate::engine::{view_of_result, EngineTrait, Identifier};
use crate::text::{
    free_of, join, lemma_split_len, lemma_split_of_join, split, split_from, starts_with, texts,
};
use crate::traits::MatchesTrait;
use vstd::prelude::*;
use vstd::string::StringExecFns;

verus! {

/// The address of a resource. A field that is absent constrains nothing.
#[derive(Debug, PartialEq, Eq, Clone)]
pub struct ResourceAbstract<Engine: EngineTrait> {
    /// The partition in which the resource is located.
    pub partition: Option<Engine::Partition>,
    /// The service that owns the resource.
    pub service: Option<Engine::Service>,
    /// The region of the resource.
    pub region: Option<Engine::Region>,
    /// The account that owns the resource.
    pub account_id: Option<Engine::AccountID>,
    /// The kind of the resource.
    pub resource_type: Option<Engine::ResourceType>,
    /// The name or path of the resource.
    pub resource_id: Option<Engine::ResourceID>,
}

/// What an address holds: for each field that is present, what its
/// identifier holds.
pub struct ResourceView<Engine: EngineTrait> {
    /// What the partition holds.
    pub partition: Option<<Engine::Partition as View>::V>,
    /// What the service holds.
    pub service: Option<<Engine::Service as View>::V>,
    /// What the region holds.
    pub region: Option<<Engine::Region as View>::V>,
    /// What the account holds.
    pub account_id: Option<<Engine::AccountID as View>::V>,
    /// What the resource type holds.
    pub resource_type: Option<<Engine::ResourceType as View>::V>,
    /// What the resource id holds.
    pub resource_id: Option<<Engine::ResourceID as View>::V>,
}

/// The view of a field: the view of its identifier, where there is one.
pub open spec fn field_view<T: View>(field: Option<T>) -> Option<T::V> {
    match field {
        Some(value) => Some(value@),
        None => None,
    }
}

impl<Engine: EngineTrait> View for ResourceAbstract<Engine> {
    type V = ResourceView<Engine>;

    open spec fn view(&self) -> ResourceView<Engine> {
        ResourceView {
            partition: field_view(self.partition),
            service: field_view(self.service),
            region: field_view(self.region),
            account_id: field_view(self.account_id),
            resource_type: field_view(self.resource_type),
            resource_id: field_view(self.resource_id),
        }
    }
}

/// How one field of a declared address stands to the same field of a
/// requested one: where either is absent the field matches, otherwise the
/// identifiers decide.
pub open spec fn field_matches<T: MatchesTrait<bool>>(
    declared: Option<T::V>,
    requested: Option<T::V>,
) -> Result<bool, &'static str> {
    match (declared, requested) {
        (Some(d), Some(r)) => T::matches_spec(d, r),
        _ => Ok(true),
    }
}

/// The first of two results that is not `Ok(true)`, in order.
pub open spec fn and_also(
    first: Result<bool, &'static str>,
    rest: Result<bool, &'static str>,
) -> Result<bool, &'static str> {
    if first == Ok::<bool, &'static str>(true) {
        rest
    } else {
        first
    }
}

impl<Engine: EngineTrait> ResourceView<Engine> {
    /// How this declared address stands to a requested one. The fields are
    /// taken in order, partition first; the first field that fails to match,
    /// or whose identifiers cannot be compared, decides.
    pub open spec fn matches(self, requested: Self) -> Result<bool, &'static str> {
        and_also(
            field_matches::<Engine::Partition>(self.partition, requested.partition),
            and_also(
                field_matches::<Engine::Service>(self.service, requested.service),
                and_also(
                    field_matches::<Engine::Region>(self.region, requested.region),
                    and_also(
                        field_matches::<Engine::AccountID>(self.account_id, requested.account_id),
                        and_also(
                            field_matches::<Engine::ResourceType>(
                                self.resource_type,
                                requested.resource_type,
                            ),
                            field_matches::<Engine::ResourceID>(
                                self.resource_id,
                                requested.resource_id,
                            ),
                        ),
                    ),
                ),
            ),
        )
    }
}

fn match_field<T: MatchesTrait<bool>>(declared: &Option<T>, requested: &Option<T>) -> (r: Result<
    bool,
    &'static str,
>)
    ensures
        r == field_matches::<T>(field_view(*declared), field_view(*requested)),
{
    match (declared.as_ref(), requested.as_ref()) {
        (Some(d), Some(r)) => d.matches(r),
        _ => Ok(true),
    }
}

impl<Engine: EngineTrait> MatchesTrait<bool> for ResourceAbstract<Engine> {
    open spec fn matches_spec(
        declared: ResourceView<Engine>,
        requested: ResourceView<Engine>,
    ) -> Result<bool, &'static str> {
        declared.matches(requested)
    }

    /// Holds the requested address `other` against this declared address.
    fn matches(&self, other: &ResourceAbstract<Engine>) -> (r: Result<bool, &'static str>) {
        if !match_field(&self.partition, &other.partition)? {
            return Ok(false);
        }
        if !match_field(&self.service, &other.service)? {
            return Ok(false);
        }
        if !match_field(&self.region, &other.region)? {
            return Ok(false);
        }
        if !match_field(&self.account_id, &other.account_id)? {
            return Ok(false);
        }
        if !match_field(&self.resource_type, &other.resource_type)? {
            return Ok(false);
        }
        if !match_field(&self.resource_id, &other.resource_id)? {
            return Ok(false);
        }
        Ok(true)
    }
}

/// Why a text is not a resource address.
#[derive(Debug, PartialEq, Eq, Clone, Copy)]
pub enum ParseError {
    /// The text does not begin with `arn:`.
    InvalidFormat,
    /// More than six fields follow `arn:`.
    TooManyFields,
    /// A field is not an identifier of its type; the identifier type's own
    /// message is kept.
    InvalidField(&'static str),
}

impl ParseError {
    /// The message of an error.
    pub open spec fn message_of(self) -> &'static str {
        match self {
            ParseError::InvalidFormat =>
                "Invalid resource format: Resource name should start with 'arn:'",
            ParseError::TooManyFields =>
                "Invalid resource format: Resource name should have at most six fields",
            ParseError::InvalidField(reason) => reason,
        }
    }

    /// The message of the error.
    pub fn message(&self) -> (text: &'static str)
        ensures
            text == self.message_of(),
    {
        match self {
            ParseError::InvalidFormat =>
                "Invalid resource format: Resource name should start with 'arn:'",
            ParseError::TooManyFields =>
                "Invalid resource format: Resource name should have at most six fields",
            ParseError::InvalidField(reason) => reason,
        }
    }
}

/// What every address text begins with.
pub open spec fn arn_prefix() -> Seq<char> {
    seq!['a', 'r', 'n', ':']
}

/// The text of the field at position `k`: a field that the text does not
/// reach is empty.
pub open spec fn piece_at(pieces: Seq<Seq<char>>, k: int) -> Seq<char> {
    if 0 <= k < pieces.len() {
        pieces[k]
    } else {
        Seq::empty()
    }
}

/// The field that a piece of text stands for. An empty piece is an absent
/// field and is never handed to the identifier type.
pub open spec fn field_parsed<T: Identifier>(piece: Seq<char>) -> Result<Option<T::V>, ParseError> {
    if piece.len() == 0 {
        Ok(None)
    } else {
        match T::parsed(piece) {
            Ok(value) => Ok(Some(value)),
            Err(reason) => Err(ParseError::InvalidField(reason)),
        }
    }
}

/// The text of a field: nothing where the field is absent.
pub open spec fn field_rendered<T: Identifier>(field: Option<T::V>) -> Seq<char> {
    match field {
        Some(value) => T::rendered(value),
        None => Seq::empty(),
    }
}

/// A field survives being written and read again: where it is present, its
/// text is not empty, holds no colon, and is read as the same identifier.
pub open spec fn reads_back<T: Identifier>(field: Option<T::V>) -> bool {
    field matches Some(value) ==> {
        &&& T::rendered(value).len() > 0
        &&& !T::rendered(value).contains(':')
        &&& T::parsed(T::rendered(value)) == Ok::<T::V, &'static str>(value)
    }
}

impl<Engine: EngineTrait> ResourceView<Engine> {
    /// The address that six pieces of text stand for, or the error of the
    /// first piece that is not an identifier.
    pub open spec fn parsed_fields(pieces: Seq<Seq<char>>) -> Result<Self, ParseError> {
        match field_parsed::<Engine::Partition>(piece_at(pieces, 0)) {
            Err(e) => Err(e),
            Ok(partition) => match field_parsed::<Engine::Service>(piece_at(pieces, 1)) {
                Err(e) => Err(e),
                Ok(service) => match field_parsed::<Engine::Region>(piece_at(pieces, 2)) {
                    Err(e) => Err(e),
                    Ok(region) => match field_parsed::<Engine::AccountID>(piece_at(pieces, 3)) {
                        Err(e) => Err(e),
                        Ok(account_id) => match field_parsed::<Engine::ResourceType>(
                            piece_at(pieces, 4),
                        ) {
                            Err(e) => Err(e),
                            Ok(resource_type) => match field_parsed::<Engine::ResourceID>(
                                piece_at(pieces, 5),
                            ) {
                                Err(e) => Err(e),
                                Ok(resource_id) => Ok(
                                    ResourceView {
                                        partition,
                                        service,
                                        region,
                                        account_id,
                                        resource_type,
                                        resource_id,
                                    },
                                ),
                            },
                        },
                    },
                },
            },
        }
    }

    /// The address that `text` stands for. After `arn:` come up to six
    /// fields, divided by colons: partition, service, region, account,
    /// resource type and resource id. An empty field is absent, and so is a
    /// field that the text is too short to reach. A seventh field is an
    /// error.
    pub open spec fn parsed(text: Seq<char>) -> Result<Self, ParseError> {
        if !arn_prefix().is_prefix_of(text) {
            Err(ParseError::InvalidFormat)
        } else {
            let pieces = split(text.skip(4), ':');
            if pieces.len() > 6 {
                Err(ParseError::TooManyFields)
            } else {
                Self::parsed_fields(pieces)
            }
        }
    }

    /// The six fields as text, in order.
    pub open spec fn rendered_fields(self) -> Seq<Seq<char>> {
        seq![
            field_rendered::<Engine::Partition>(self.partition),
            field_rendered::<Engine::Service>(self.service),
            field_rendered::<Engine::Region>(self.region),
            field_rendered::<Engine::AccountID>(self.account_id),
            field_rendered::<Engine::ResourceType>(self.resource_type),
            field_rendered::<Engine::ResourceID>(self.resource_id),
        ]
    }

    /// The text of the address: `arn:` and the six fields with colons
    /// between them, an absent field being empty.
    pub open spec fn rendered(self) -> Seq<char> {
        arn_prefix() + join(self.rendered_fields(), ':')
    }
}

fn read_field<T: Identifier>(pieces: &Vec<&str>, k: usize) -> (r: Result<Option<T>, ParseError>)
    ensures
        match r {
            Ok(field) => field_parsed::<T>(piece_at(texts(pieces@), k as int)) == Ok::<
                Option<T::V>,
                ParseError,
            >(field_view(field)),
            Err(e) => field_parsed::<T>(piece_at(texts(pieces@), k as int)) == Err::<
                Option<T::V>,
                ParseError,
            >(e),
        },
{
    if k >= pieces.len() {
        return Ok(None);
    }
    let piece = pieces[k];
    if piece.is_empty() {
        return Ok(None);
    }
    match T::from_str(piece) {
        Ok(value) => Ok(Some(value)),
        Err(reason) => Err(ParseError::InvalidField(reason)),
    }
}

fn write_field<T: Identifier>(out: &mut String, field: &Option<T>)
    ensures
        final(out)@ == old(out)@ + field_rendered::<T>(field_view(*field)),
{
    match field {
        Some(value) => {
            let text = value.to_string();
            out.append(text.as_str());
        },
        None => {},
    }
}

/// One more piece behind a joined text: the separator, then the piece.
proof fn lemma_join_step(prefix: Seq<char>, pieces: Seq<Seq<char>>, k: int, sep: char)
    requires
        1 <= k < pieces.len(),
    ensures
        prefix + join(pieces.take(k), sep) + seq![sep] + pieces[k] == prefix + join(
            pieces.take(k + 1),
            sep,
        ),
{
    let shorter = pieces.take(k);
    let longer = pieces.take(k + 1);
    assert(longer.drop_last() == shorter);
    assert(longer.last() == pieces[k]);
    assert(join(longer, sep) == join(shorter, sep).push(sep) + pieces[k]);
    assert(prefix + join(shorter, sep) + seq![sep] + pieces[k] == prefix + (join(shorter, sep).push(
        sep,
    ) + pieces[k]));
}

impl<Engine: EngineTrait> ResourceAbstract<Engine> {
    /// Reads an address from its text. A text that does not begin with
    /// `arn:` is refused as `InvalidFormat` and one with more than six fields
    /// as `TooManyFields`; a field that its identifier type refuses is
    /// reported as `InvalidField`, the first such field deciding.
    pub fn from_str(s: &str) -> (r: Result<Self, ParseError>)
        ensures
            view_of_result(r) == ResourceView::<Engine>::parsed(s@),
    {
        proof {
            reveal_strlit("arn:");
            assert("arn:"@ == arn_prefix());
        }
        if !starts_with(s, "arn:") {
            return Err(ParseError::InvalidFormat);
        }
        let pieces = split_from(s, 4, ':');
        if pieces.len() > 6 {
            return Err(ParseError::TooManyFields);
        }
        let partition = match read_field::<Engine::Partition>(&pieces, 0) {
            Ok(field) => field,
            Err(e) => return Err(e),
        };
        let service = match read_field::<Engine::Service>(&pieces, 1) {
            Ok(field) => field,
            Err(e) => return Err(e),
        };
        let region = match read_field::<Engine::Region>(&pieces, 2) {
            Ok(field) => field,
            Err(e) => return Err(e),
        };
        let account_id = match read_field::<Engine::AccountID>(&pieces, 3) {
            Ok(field) => field,
            Err(e) => return Err(e),
        };
        let resource_type = match read_field::<Engine::ResourceType>(&pieces, 4) {
            Ok(field) => field,
            Err(e) => return Err(e),
        };
        let resource_id = match read_field::<Engine::ResourceID>(&pieces, 5) {
            Ok(field) => field,
            Err(e) => return Err(e),
        };
        Ok(ResourceAbstract { partition, service, region, account_id, resource_type, resource_id })
    }

    /// Writes the address as text.
    pub fn to_string(&self) -> (s: String)
        ensures
            s@ == self@.rendered(),
    {
        proof {
            reveal_strlit("arn:");
            reveal_strlit(":");
            assert("arn:"@ == arn_prefix());
            assert(":"@ == seq![':']);
        }
        let ghost fields = self@.rendered_fields();
        let mut out = String::from_str("arn:");
        write_field(&mut out, &self.partition);
        proof {
            assert(join(fields.take(1), ':') == fields[0]);
        }
        out.append(":");
        write_field(&mut out, &self.service);
        proof {
            lemma_join_step(arn_prefix(), fields, 1, ':');
        }
        out.append(":");
        write_field(&mut out, &self.region);
        proof {
            lemma_join_step(arn_prefix(), fields, 2, ':');
        }
        out.append(":");
        write_field(&mut out, &self.account_id);
        proof {
            lemma_join_step(arn_prefix(), fields, 3, ':');
        }
        out.append(":");
        write_field(&mut out, &self.resource_type);
        proof {
            lemma_join_step(arn_prefix(), fields, 4, ':');
        }
        out.append(":");
        write_field(&mut out, &self.resource_id);
        proof {
            lemma_join_step(arn_prefix(), fields, 5, ':');
            assert(fields.take(6) == fields);
        }
        out
    }
}

/// An address matches exactly if each of its six fields does, and a field
/// that the declared address leaves out always does. So an address that
/// leaves a field out accepts every value of that field.
pub proof fn lemma_matches_field_by_field<Engine: EngineTrait>(
    declared: ResourceView<Engine>,
    requested: ResourceView<Engine>,
)
    ensures
        declared.matches(requested) == Ok::<bool, &'static str>(true) <==> {
            &&& field_matches::<Engine::Partition>(declared.partition, requested.partition) == Ok::<
                bool,
                &'static str,
            >(true)
            &&& field_matches::<Engine::Service>(declared.service, requested.service) == Ok::<
                bool,
                &'static str,
            >(true)
            &&& field_matches::<Engine::Region>(declared.region, requested.region) == Ok::<
                bool,
                &'static str,
            >(true)
            &&& field_matches::<Engine::AccountID>(declared.account_id, requested.account_id)
                == Ok::<bool, &'static str>(true)
            &&& field_matches::<Engine::ResourceType>(
                declared.resource_type,
                requested.resource_type,
            ) == Ok::<bool, &'static str>(true)
            &&& field_matches::<Engine::ResourceID>(declared.resource_id, requested.resource_id)
                == Ok::<bool, &'static str>(true)
        },
        declared.partition is None ==> field_matches::<Engine::Partition>(
            declared.partition,
            requested.partition,
        ) == Ok::<bool, &'static str>(true),
        declared.service is None ==> field_matches::<Engine::Service>(
            declared.service,
            requested.service,
        ) == Ok::<bool, &'static str>(true),
        declared.region is None ==> field_matches::<Engine::Region>(
            declared.region,
            requested.region,
        ) == Ok::<bool, &'static str>(true),
        declared.account_id is None ==> field_matches::<Engine::AccountID>(
            declared.account_id,
            requested.account_id,
        ) == Ok::<bool, &'static str>(true),
        declared.resource_type is None ==> field_matches::<Engine::ResourceType>(
            declared.resource_type,
            requested.resource_type,
        ) == Ok::<bool, &'static str>(true),
        declared.resource_id is None ==> field_matches::<Engine::ResourceID>(
            declared.resource_id,
            requested.resource_id,
        ) == Ok::<bool, &'static str>(true),
{
}

/// Writing an address and reading the text back gives the address again,
/// provided each field that is present survives the trip on its own. This
/// holds of every fully specified address whose identifiers do, and of
/// addresses that leave fields out as well.
pub proof fn lemma_address_round_trip<Engine: EngineTrait>(address: ResourceView<Engine>)
    requires
        reads_back::<Engine::Partition>(address.partition),
        reads_back::<Engine::Service>(address.service),
        reads_back::<Engine::Region>(address.region),
        reads_back::<Engine::AccountID>(address.account_id),
        reads_back::<Engine::ResourceType>(address.resource_type),
        reads_back::<Engine::ResourceID>(address.resource_id),
    ensures
        ResourceView::<Engine>::parsed(address.rendered()) == Ok::<
            ResourceView<Engine>,
            ParseError,
        >(address),
{
    let fields = address.rendered_fields();
    let joined = join(fields, ':');
    assert((arn_prefix() + joined).subrange(0, 4) == arn_prefix());
    assert((arn_prefix() + joined).skip(4) == joined);
    assert(free_of(fields, ':')) by {
        assert forall|k: int| 0 <= k < fields.len() implies !(#[trigger] fields[k]).contains(
            ':',
        ) by {
            assert(!Seq::<char>::empty().contains(':'));
        }
    }
    lemma_split_of_join(fields, ':');
    assert(split(address.rendered().skip(4), ':') == fields);
    assert(field_parsed::<Engine::Partition>(piece_at(fields, 0)) == Ok::<
        Option<<Engine::Partition as View>::V>,
        ParseError,
    >(address.partition));
    assert(field_parsed::<Engine::Service>(piece_at(fields, 1)) == Ok::<
        Option<<Engine::Service as View>::V>,
        ParseError,
    >(address.service));
    assert(field_parsed::<Engine::Region>(piece_at(fields, 2)) == Ok::<
        Option<<Engine::Region as View>::V>,
        ParseError,
    >(address.region));
    assert(field_parsed::<Engine::AccountID>(piece_at(fields, 3)) == Ok::<
        Option<<Engine::AccountID as View>::V>,
        ParseError,
    >(address.account_id));
    assert(field_parsed::<Engine::ResourceType>(piece_at(fields, 4)) == Ok::<
        Option<<Engine::ResourceType as View>::V>,
        ParseError,
    >(address.resource_type));
    assert(field_parsed::<Engine::ResourceID>(piece_at(fields, 5)) == Ok::<
        Option<<Engine::ResourceID as View>::V>,
        ParseError,
    >(address.resource_id));
}

/// When a text is an address, and which error it gives when it is not: a
/// text that does not begin with `arn:` is malformed; one with more than six
/// fields has too many; any other text is an address exactly if each of its
/// fields is read. A text that ends early is an address: the fields it does
/// not reach are absent.
pub proof fn lemma_parsed_outcomes<Engine: EngineTrait>(text: Seq<char>)
    ensures
        ResourceView::<Engine>::parsed(text) == Err::<ResourceView<Engine>, ParseError>(
            ParseError::InvalidFormat,
        ) <==> !arn_prefix().is_prefix_of(text),
        ResourceView::<Engine>::parsed(text) == Err::<ResourceView<Engine>, ParseError>(
            ParseError::TooManyFields,
        ) <==> arn_prefix().is_prefix_of(text) && split(text.skip(4), ':').len() > 6,
        ResourceView::<Engine>::parsed(text) is Ok <==> {
            let pieces = split(text.skip(4), ':');
            &&& arn_prefix().is_prefix_of(text)
            &&& pieces.len() <= 6
            &&& field_parsed::<Engine::Partition>(piece_at(pieces, 0)) is Ok
            &&& field_parsed::<Engine::Service>(piece_at(pieces, 1)) is Ok
            &&& field_parsed::<Engine::Region>(piece_at(pieces, 2)) is Ok
            &&& field_parsed::<Engine::AccountID>(piece_at(pieces, 3)) is Ok
            &&& field_parsed::<Engine::ResourceType>(piece_at(pieces, 4)) is Ok
            &&& field_parsed::<Engine::ResourceID>(piece_at(pieces, 5)) is Ok
        },
        ResourceView::<Engine>::parsed(text) matches Ok(address) ==> {
            let count = split(text.skip(4), ':').len();
            &&& 1 <= count <= 6
            &&& count <= 1 ==> address.service is None
            &&& count <= 2 ==> address.region is None
            &&& count <= 3 ==> address.account_id is None
            &&& count <= 4 ==> address.resource_type is None
            &&& count <= 5 ==> address.resource_id is None
        },
{
    lemma_split_len(text.skip(4), ':');
}

} // verus!
