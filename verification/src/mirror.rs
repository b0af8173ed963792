//! The projection of committed entities onto the graph store that mirrors
//! them: transfers become vertices for their two accounts and an edge
//! between them.

use vstd::prelude::*;
use vstd::string::StringExecFns;
use rand::Rng;
use crate::block::BlockNumber;
use crate::entity::{
    attribute_of, batch_view, str_eq, AttributeView, Entity, EntityModification, ModificationView,
};
use crate::text::{parsed_i32, read_i32, unquoted, value_text, without_quotes};

verus! {

/// An entity that was written at a block, with the space of the graph
/// store that it belongs to.
#[derive(Debug)]
pub struct EntityWithSpaceName {
    pub space_name: String,
    pub entity: Entity,
    pub block_number: BlockNumber,
}

/// The mathematical value of an `EntityWithSpaceName`.
pub struct EntityWithSpaceNameView {
    pub space_name: Seq<char>,
    pub entity: Seq<AttributeView>,
    pub block_number: BlockNumber,
}

impl View for EntityWithSpaceName {
    type V = EntityWithSpaceNameView;

    open spec fn view(&self) -> EntityWithSpaceNameView {
        EntityWithSpaceNameView {
            space_name: self.space_name@,
            entity: self.entity@,
            block_number: self.block_number,
        }
    }
}

/// The mathematical values of a list of entities.
pub open spec fn entities_view(entities: Seq<EntityWithSpaceName>) -> Seq<EntityWithSpaceNameView> {
    entities.map_values(|e: EntityWithSpaceName| e@)
}

/// A property of a vertex or an edge.
#[derive(Debug)]
pub struct Property {
    pub name: String,
    pub value: String,
}

impl View for Property {
    type V = (Seq<char>, Seq<char>);

    open spec fn view(&self) -> (Seq<char>, Seq<char>) {
        (self.name@, self.value@)
    }
}

/// The mathematical values of a list of properties.
pub open spec fn properties_view(properties: Seq<Property>) -> Seq<(Seq<char>, Seq<char>)> {
    properties.map_values(|p: Property| p@)
}

/// The request to insert a vertex with a tag.
#[derive(Debug)]
pub struct InsertTagQuery {
    pub space_name: String,
    pub tag_name: String,
    pub properties: Vec<Property>,
    /// The id of the vertex.
    pub vid: String,
    pub if_not_exists: bool,
    pub value: i32,
}

/// The mathematical value of an `InsertTagQuery`.
pub struct InsertTagQueryView {
    pub space_name: Seq<char>,
    pub tag_name: Seq<char>,
    pub properties: Seq<(Seq<char>, Seq<char>)>,
    pub vid: Seq<char>,
    pub if_not_exists: bool,
    pub value: i32,
}

impl View for InsertTagQuery {
    type V = InsertTagQueryView;

    open spec fn view(&self) -> InsertTagQueryView {
        InsertTagQueryView {
            space_name: self.space_name@,
            tag_name: self.tag_name@,
            properties: properties_view(self.properties@),
            vid: self.vid@,
            if_not_exists: self.if_not_exists,
            value: self.value,
        }
    }
}

/// The mathematical values of a list of requests.
pub open spec fn tag_queries_view(queries: Seq<InsertTagQuery>) -> Seq<InsertTagQueryView> {
    queries.map_values(|q: InsertTagQuery| q@)
}

/// The request to insert an edge, ranked by the block that wrote it.
#[derive(Debug)]
pub struct InsertEdgeQueryWithRank {
    pub space_name: String,
    pub edge_name: String,
    pub properties: Vec<Property>,
    pub from_vertex: String,
    pub to_vertex: String,
    pub rank: BlockNumber,
    pub value: i32,
}

/// The mathematical value of an `InsertEdgeQueryWithRank`.
pub struct InsertEdgeQueryView {
    pub space_name: Seq<char>,
    pub edge_name: Seq<char>,
    pub properties: Seq<(Seq<char>, Seq<char>)>,
    pub from_vertex: Seq<char>,
    pub to_vertex: Seq<char>,
    pub rank: BlockNumber,
    pub value: i32,
}

impl View for InsertEdgeQueryWithRank {
    type V = InsertEdgeQueryView;

    open spec fn view(&self) -> InsertEdgeQueryView {
        InsertEdgeQueryView {
            space_name: self.space_name@,
            edge_name: self.edge_name@,
            properties: properties_view(self.properties@),
            from_vertex: self.from_vertex@,
            to_vertex: self.to_vertex@,
            rank: self.rank,
            value: self.value,
        }
    }
}

/// The mathematical values of a list of requests.
pub open spec fn edge_queries_view(queries: Seq<InsertEdgeQueryWithRank>) -> Seq<
    InsertEdgeQueryView,
> {
    queries.map_values(|q: InsertEdgeQueryWithRank| q@)
}

/// The text form of the attribute `name` of an entity, if it has one.
pub open spec fn text_of(entity: Seq<AttributeView>, name: Seq<char>) -> Option<Seq<char>> {
    match attribute_of(entity, name) {
        Some(value) => Some(value_text(value)),
        None => None,
    }
}

/// Whether the entity is mirrored: it is no digest of the proof of
/// indexing, and its attribute `operation` reads `1`.
pub open spec fn is_mirrored(e: EntityWithSpaceNameView) -> bool {
    e.space_name != "Poi$"@ && text_of(e.entity, "operation"@) == Some("1"@)
}

/// Whether the vertices of the entity can be told: unless it is a digest,
/// it has an attribute `operation`, and where it is mirrored it names both
/// accounts and a value that is a number.
pub open spec fn has_vertices(e: EntityWithSpaceNameView) -> bool {
    e.space_name == "Poi$"@ || (text_of(e.entity, "operation"@) is Some && (is_mirrored(e) ==> {
        &&& text_of(e.entity, "from_account"@) is Some
        &&& text_of(e.entity, "to_account"@) is Some
        &&& text_of(e.entity, "value"@) matches Some(value) && parsed_i32(value) is Some
    }))
}

/// The request for the vertex of the account that the attribute `account`
/// of a mirrored entity names.
pub open spec fn tag_query_of(e: EntityWithSpaceNameView, account: Seq<char>) -> InsertTagQueryView {
    InsertTagQueryView {
        space_name: e.space_name,
        tag_name: e.space_name + "_tag"@,
        properties: seq![(account, text_of(e.entity, account)->0)],
        vid: unquoted(text_of(e.entity, account)->0),
        if_not_exists: true,
        value: parsed_i32(text_of(e.entity, "value"@)->0)->0,
    }
}

/// The requests for the vertices of the first `n` entities: for each
/// mirrored entity the vertex of the sender, then that of the receiver.
pub open spec fn tag_queries(entities: Seq<EntityWithSpaceNameView>, n: int) -> Seq<
    InsertTagQueryView,
>
    decreases n,
{
    if n <= 0 {
        Seq::empty()
    } else if is_mirrored(entities[n - 1]) {
        tag_queries(entities, n - 1).push(tag_query_of(entities[n - 1], "from_account"@)).push(
            tag_query_of(entities[n - 1], "to_account"@),
        )
    } else {
        tag_queries(entities, n - 1)
    }
}

impl Entity {
    /// The text form of the attribute `name`, if the entity has one.
    pub fn text(&self, name: &str) -> (res: Option<String>)
        ensures
            crate::deployment::opt_text(res) == text_of(self@, name@),
    {
        match self.get(name) {
            Some(value) => Some(value.to_text()),
            None => None,
        }
    }
}

impl EntityWithSpaceName {
    pub fn new(space_name: String, entity: Entity, block_number: BlockNumber) -> (res: Self)
        ensures
            res@ == (EntityWithSpaceNameView {
                space_name: space_name@,
                entity: entity@,
                block_number,
            }),
    {
        EntityWithSpaceName { space_name, entity, block_number }
    }

    /// Whether the entity is mirrored; `None` where it is no digest and has
    /// no attribute `operation`.
    pub fn mirrored(&self) -> (res: Option<bool>)
        ensures
            match res {
                Some(mirrored) => mirrored == is_mirrored(self@) && (self@.space_name == "Poi$"@
                    || text_of(self@.entity, "operation"@) is Some),
                None => self@.space_name != "Poi$"@ && text_of(self@.entity, "operation"@) is None,
            },
    {
        if str_eq(self.space_name.as_str(), "Poi$") {
            return Some(false);
        }
        match self.entity.text("operation") {
            Some(operation) => Some(str_eq(operation.as_str(), "1")),
            None => None,
        }
    }

    /// Whether the vertices of the entity can be told.
    pub fn vertices_known(&self) -> (res: bool)
        ensures
            res == has_vertices(self@),
    {
        match self.mirrored() {
            Some(true) => {
                let value = match self.entity.text("value") {
                    Some(value) => read_i32(value.as_str()).is_some(),
                    None => false,
                };
                value && self.entity.text("from_account").is_some() && self.entity.text(
                    "to_account",
                ).is_some()
            },
            Some(false) => true,
            None => false,
        }
    }

    /// The request for the vertex of the account that the attribute
    /// `account` of this mirrored entity names.
    fn tag_query(&self, account: &str) -> (query: InsertTagQuery)
        requires
            is_mirrored(self@),
            has_vertices(self@),
            account@ == "from_account"@ || account@ == "to_account"@,
        ensures
            query@ == tag_query_of(self@, account@),
    {
        let text = match self.entity.text(account) {
            Some(text) => text,
            None => String::new(),
        };
        let value: i32 = match self.entity.text("value") {
            Some(value) => match read_i32(value.as_str()) {
                Some(number) => number,
                None => 0,
            },
            None => 0,
        };
        let vid = without_quotes(text.as_str());
        let mut tag_name = self.space_name.clone();
        tag_name.append("_tag");
        let mut properties: Vec<Property> = Vec::new();
        properties.push(Property { name: account.to_owned(), value: text });
        let query = InsertTagQuery {
            space_name: self.space_name.clone(),
            tag_name,
            properties,
            vid,
            if_not_exists: true,
            value,
        };
        assert(query@.properties =~= seq![(account@, text_of(self@.entity, account@)->0)]);
        query
    }

    /// The requests for the vertices of the entities: for each mirrored
    /// entity the vertex of the sender, then that of the receiver. The
    /// vertices of every entity must be known.
    pub fn entity_to_insert_tag_query(entities: &Vec<EntityWithSpaceName>) -> (queries: Vec<
        InsertTagQuery,
    >)
        requires
            forall|i: int| 0 <= i < entities@.len() ==> has_vertices(#[trigger] entities@[i]@),
        ensures
            tag_queries_view(queries@) == tag_queries(
                entities_view(entities@),
                entities@.len() as int,
            ),
    {
        let mut queries: Vec<InsertTagQuery> = Vec::new();
        let mut i: usize = 0;
        assert(tag_queries_view(queries@) =~= Seq::<InsertTagQueryView>::empty());
        while i < entities.len()
            invariant
                i <= entities.len(),
                forall|k: int| 0 <= k < entities@.len() ==> has_vertices(#[trigger] entities@[k]@),
                tag_queries_view(queries@) == tag_queries(entities_view(entities@), i as int),
            decreases entities.len() - i,
        {
            let entity = &entities[i];
            assert(entities_view(entities@)[i as int] == entity@);
            assert(has_vertices(entities@[i as int]@));
            if let Some(true) = entity.mirrored() {
                let ghost before = tag_queries_view(queries@);
                let from = entity.tag_query("from_account");
                let to = entity.tag_query("to_account");
                queries.push(from);
                queries.push(to);
                assert(tag_queries_view(queries@) =~= before.push(from@).push(to@));
            }
            i = i + 1;
        }
        queries
    }

    /// The requests for the vertices of the entities, or nothing where the
    /// vertices of one of them are not known.
    pub fn try_entity_to_insert_tag_query(entities: &Vec<EntityWithSpaceName>) -> (res: Option<
        Vec<InsertTagQuery>,
    >)
        ensures
            match res {
                Some(queries) => (forall|i: int|
                    0 <= i < entities@.len() ==> has_vertices(#[trigger] entities@[i]@))
                    && tag_queries_view(queries@) == tag_queries(
                    entities_view(entities@),
                    entities@.len() as int,
                ),
                None => exists|i: int|
                    0 <= i < entities@.len() && !has_vertices(#[trigger] entities@[i]@),
            },
    {
        let mut i: usize = 0;
        while i < entities.len()
            invariant
                i <= entities.len(),
                forall|k: int| 0 <= k < i ==> has_vertices(#[trigger] entities@[k]@),
            decreases entities.len() - i,
        {
            if !entities[i].vertices_known() {
                return None;
            }
            i = i + 1;
        }
        Some(Self::entity_to_insert_tag_query(entities))
    }
}

/// Whether the character is a digit or a lower-case letter of the Latin
/// alphabet.
pub open spec fn is_tag_char(c: char) -> bool {
    ('0' <= c && c <= '9') || ('a' <= c && c <= 'z')
}

/// Whether the text is made of `len` digits and lower-case letters.
pub open spec fn is_random_tag(text: Seq<char>, len: nat) -> bool {
    text.len() == len && forall|i: int| 0 <= i < text.len() ==> is_tag_char(#[trigger] text[i])
}

/// Draws a byte between `low` and `high`, both included, with
/// `rand::Rng::gen_range` from the generator of the thread. The range must
/// not be empty. Nothing is known of the byte but that it lies in the range.
#[verifier::external_body]
pub(crate) fn random_byte(low: u8, high: u8) -> (res: u8)
    requires
        low <= high,
    ensures
        low <= res <= high,
{
    rand::thread_rng().gen_range(low..=high)
}

/// Makes a string of ASCII bytes with `String::from_utf8`: it has the
/// characters that the bytes stand for.
#[verifier::external_body]
pub(crate) fn ascii_string(bytes: Vec<u8>) -> (res: String)
    requires
        forall|i: int| 0 <= i < bytes@.len() ==> bytes@[i] < 128,
    ensures
        res@.len() == bytes@.len(),
        forall|i: int| 0 <= i < bytes@.len() ==> res@[i] == bytes@[i] as char,
{
    String::from_utf8(bytes).unwrap()
}

/// The position of the first property, at or after `from`, called `name`;
/// the number of properties where there is none.
pub open spec fn property_from(properties: Seq<(Seq<char>, Seq<char>)>, name: Seq<char>, from: int)
    -> int
    decreases properties.len() - from,
{
    if from < 0 || from >= properties.len() {
        properties.len() as int
    } else if properties[from].0 == name {
        from
    } else {
        property_from(properties, name, from + 1)
    }
}

/// The properties with `name` set to `value`: in the place of the property
/// of that name where there is one, at the end where there is none.
pub open spec fn with_property(
    properties: Seq<(Seq<char>, Seq<char>)>,
    name: Seq<char>,
    value: Seq<char>,
) -> Seq<(Seq<char>, Seq<char>)> {
    let at = property_from(properties, name, 0);
    if at < properties.len() {
        properties.update(at, (name, value))
    } else {
        properties.push((name, value))
    }
}

/// The property `transactions` of an edge: the value of the transfer, a
/// random tag and a plus sign, in round brackets.
pub open spec fn transactions_text(value: Seq<char>, random: Seq<char>) -> Seq<char> {
    "("@ + value + ","@ + random + ","@ + "+"@ + ")"@
}

/// The properties of the edge of an entity, from its first `n` attributes:
/// each attribute but `id` and `operation` in its text form, and with the
/// attribute `value` the property `transactions`.
pub open spec fn edge_properties(entity: Seq<AttributeView>, random: Seq<char>, n: int) -> Seq<
    (Seq<char>, Seq<char>),
>
    decreases n,
{
    if n <= 0 {
        Seq::empty()
    } else {
        let properties = edge_properties(entity, random, n - 1);
        let name = entity[n - 1].name;
        let text = value_text(entity[n - 1].value);
        if name == "id"@ || name == "operation"@ {
            properties
        } else if name == "value"@ {
            with_property(
                with_property(properties, "transactions"@, transactions_text(text, random)),
                name,
                text,
            )
        } else {
            with_property(properties, name, text)
        }
    }
}

/// Whether the edge of the entity can be told: unless it is a digest, it
/// has an attribute `operation`, and where it is mirrored it names both
/// accounts and a value that is a number once its quotes are taken off.
pub open spec fn has_edge(e: EntityWithSpaceNameView) -> bool {
    e.space_name == "Poi$"@ || (text_of(e.entity, "operation"@) is Some && (is_mirrored(e) ==> {
        &&& text_of(e.entity, "from_account"@) is Some
        &&& text_of(e.entity, "to_account"@) is Some
        &&& text_of(e.entity, "value"@) matches Some(value) && parsed_i32(unquoted(value)) is Some
    }))
}

/// The request for the edge of a mirrored entity, with the random tag
/// `random` in its property `transactions`. The edge runs from the vertex
/// of the receiver to the vertex of the sender.
pub open spec fn edge_query_of(e: EntityWithSpaceNameView, random: Seq<char>) -> InsertEdgeQueryView {
    InsertEdgeQueryView {
        space_name: e.space_name,
        edge_name: "tx"@,
        properties: edge_properties(e.entity, random, e.entity.len() as int),
        from_vertex: unquoted(text_of(e.entity, "to_account"@)->0),
        to_vertex: unquoted(text_of(e.entity, "from_account"@)->0),
        rank: e.block_number,
        value: parsed_i32(unquoted(text_of(e.entity, "value"@)->0))->0,
    }
}

/// The requests for the edges of the first `n` entities, one for each
/// mirrored entity, with the random tag at the position of the entity.
pub open spec fn edge_queries(
    entities: Seq<EntityWithSpaceNameView>,
    randoms: Seq<Seq<char>>,
    n: int,
) -> Seq<InsertEdgeQueryView>
    decreases n,
{
    if n <= 0 {
        Seq::empty()
    } else if is_mirrored(entities[n - 1]) {
        edge_queries(entities, randoms, n - 1).push(edge_query_of(entities[n - 1], randoms[n - 1]))
    } else {
        edge_queries(entities, randoms, n - 1)
    }
}

/// The length of the random tag of an edge.
pub const RANDOM_TAG_LEN: usize = 20;

/// Sets the property `name` to `value`: in the place of the property of
/// that name where there is one, at the end where there is none.
pub fn set_property(properties: &mut Vec<Property>, name: String, value: String)
    ensures
        properties_view(final(properties)@) == with_property(
            properties_view(old(properties)@),
            name@,
            value@,
        ),
{
    let ghost before = properties_view(properties@);
    let mut i: usize = 0;
    while i < properties.len()
        invariant
            i <= properties.len(),
            properties_view(properties@) == before,
            before == properties_view(old(properties)@),
            property_from(before, name@, 0) == property_from(before, name@, i as int),
        decreases properties.len() - i,
    {
        assert(before[i as int] == properties@[i as int]@);
        if properties[i].name == name {
            assert(property_from(before, name@, i as int) == i);
            properties.set(i, Property { name, value });
            assert(properties_view(properties@) =~= before.update(i as int, (name@, value@)));
            return ;
        }
        i = i + 1;
    }
    properties.push(Property { name, value });
    assert(properties_view(properties@) =~= before.push((name@, value@)));
}

impl EntityWithSpaceName {
    /// A random string of `len` digits and lower-case letters. Each
    /// character is a digit or a letter with equal chance.
    pub fn get_random_string(len: usize) -> (res: String)
        ensures
            is_random_tag(res@, len as nat),
    {
        let mut test: Vec<u8> = Vec::new();
        let mut i: usize = 0;
        while i < len
            invariant
                i <= len,
                test@.len() == i,
                forall|j: int|
                    0 <= j < i ==> (48 <= #[trigger] test@[j] <= 57) || (97 <= test@[j] <= 122),
            decreases len - i,
        {
            let dig_or_char: u8 = random_byte(0, 1);
            let byte: u8 = if dig_or_char == 0 {
                random_byte(48, 57)
            } else {
                random_byte(97, 122)
            };
            test.push(byte);
            i = i + 1;
        }
        let ghost bytes = test@;
        let res = ascii_string(test);
        assert forall|j: int| 0 <= j < res@.len() implies is_tag_char(#[trigger] res@[j]) by {
            assert((48 <= bytes[j] <= 57) || (97 <= bytes[j] <= 122));
            assert(res@[j] == bytes[j] as char);
        }
        res
    }

    /// Whether the edge of the entity can be told.
    pub fn edge_known(&self) -> (res: bool)
        ensures
            res == has_edge(self@),
    {
        match self.mirrored() {
            Some(true) => {
                let value = match self.entity.text("value") {
                    Some(value) => {
                        let plain = without_quotes(value.as_str());
                        read_i32(plain.as_str()).is_some()
                    },
                    None => false,
                };
                value && self.entity.text("from_account").is_some() && self.entity.text(
                    "to_account",
                ).is_some()
            },
            Some(false) => true,
            None => false,
        }
    }

    /// The request for the edge of this mirrored entity, with the random
    /// tag `random` in its property `transactions`.
    pub fn insert_edge_query(&self, random: &str) -> (query: InsertEdgeQueryWithRank)
        requires
            is_mirrored(self@),
            has_edge(self@),
        ensures
            query@ == edge_query_of(self@, random@),
    {
        let mut properties: Vec<Property> = Vec::new();
        let mut i: usize = 0;
        assert(properties_view(properties@) =~= Seq::<(Seq<char>, Seq<char>)>::empty());
        while i < self.entity.attributes.len()
            invariant
                i <= self.entity.attributes.len(),
                properties_view(properties@) == edge_properties(self@.entity, random@, i as int),
            decreases self.entity.attributes.len() - i,
        {
            let attribute = &self.entity.attributes[i];
            assert(self@.entity[i as int] == attribute@);
            let name = attribute.name.as_str();
            if str_eq(name, "id") || str_eq(name, "operation") {
            } else if str_eq(name, "value") {
                let text = attribute.value.to_text();
                let mut transactions = String::from_str("(");
                transactions.append(text.as_str());
                transactions.append(",");
                transactions.append(random);
                transactions.append(",");
                transactions.append("+");
                transactions.append(")");
                set_property(&mut properties, String::from_str("transactions"), transactions);
                set_property(&mut properties, attribute.name.clone(), text);
            } else {
                set_property(&mut properties, attribute.name.clone(), attribute.value.to_text());
            }
            i = i + 1;
        }
        let sender = match self.entity.text("from_account") {
            Some(text) => without_quotes(text.as_str()),
            None => String::new(),
        };
        let receiver = match self.entity.text("to_account") {
            Some(text) => without_quotes(text.as_str()),
            None => String::new(),
        };
        let value: i32 = match self.entity.text("value") {
            Some(text) => {
                let plain = without_quotes(text.as_str());
                match read_i32(plain.as_str()) {
                    Some(number) => number,
                    None => 0,
                }
            },
            None => 0,
        };
        InsertEdgeQueryWithRank {
            space_name: self.space_name.clone(),
            edge_name: String::from_str("tx"),
            properties,
            from_vertex: receiver,
            to_vertex: sender,
            rank: self.block_number,
            value,
        }
    }

    /// The requests for the edges of the entities, one for each mirrored
    /// entity, each with a random tag of its own in its property
    /// `transactions`. The edge of every entity must be known.
    pub fn entity_to_insert_edge_queries(entities: &Vec<EntityWithSpaceName>) -> (queries: Vec<
        InsertEdgeQueryWithRank,
    >)
        requires
            forall|i: int| 0 <= i < entities@.len() ==> has_edge(#[trigger] entities@[i]@),
        ensures
            exists|randoms: Seq<Seq<char>>|
                {
                    &&& randoms.len() == entities@.len()
                    &&& forall|i: int|
                        0 <= i < randoms.len() ==> is_random_tag(
                            #[trigger] randoms[i],
                            RANDOM_TAG_LEN as nat,
                        )
                    &&& edge_queries_view(queries@) == edge_queries(
                        entities_view(entities@),
                        randoms,
                        entities@.len() as int,
                    )
                },
    {
        let mut queries: Vec<InsertEdgeQueryWithRank> = Vec::new();
        let ghost mut randoms: Seq<Seq<char>> = Seq::empty();
        let mut i: usize = 0;
        assert(edge_queries_view(queries@) =~= Seq::<InsertEdgeQueryView>::empty());
        while i < entities.len()
            invariant
                i <= entities.len(),
                forall|k: int| 0 <= k < entities@.len() ==> has_edge(#[trigger] entities@[k]@),
                randoms.len() == i,
                forall|k: int|
                    0 <= k < randoms.len() ==> is_random_tag(
                        #[trigger] randoms[k],
                        RANDOM_TAG_LEN as nat,
                    ),
                edge_queries_view(queries@) == edge_queries(
                    entities_view(entities@),
                    randoms,
                    i as int,
                ),
            decreases entities.len() - i,
        {
            let entity = &entities[i];
            assert(entities_view(entities@)[i as int] == entity@);
            assert(has_edge(entities@[i as int]@));
            let ghost earlier = randoms;
            if let Some(true) = entity.mirrored() {
                let ghost before = edge_queries_view(queries@);
                let random = Self::get_random_string(RANDOM_TAG_LEN);
                let query = entity.insert_edge_query(random.as_str());
                queries.push(query);
                proof {
                    randoms = randoms.push(random@);
                }
                assert(edge_queries_view(queries@) =~= before.push(query@));
            } else {
                proof {
                    randoms = randoms.push(Seq::new(RANDOM_TAG_LEN as nat, |k: int| '0'));
                }
            }
            proof {
                lemma_edge_queries_prefix(entities_view(entities@), earlier, randoms, i as int);
            }
            i = i + 1;
        }
        queries
    }

    /// The requests for the edges of the entities, or nothing where the
    /// edge of one of them is not known.
    pub fn try_entity_to_insert_edge_queries(entities: &Vec<EntityWithSpaceName>) -> (res: Option<
        Vec<InsertEdgeQueryWithRank>,
    >)
        ensures
            match res {
                Some(queries) => (forall|i: int|
                    0 <= i < entities@.len() ==> has_edge(#[trigger] entities@[i]@))
                    && exists|randoms: Seq<Seq<char>>|
                    {
                        &&& randoms.len() == entities@.len()
                        &&& forall|i: int|
                            0 <= i < randoms.len() ==> is_random_tag(
                                #[trigger] randoms[i],
                                RANDOM_TAG_LEN as nat,
                            )
                        &&& edge_queries_view(queries@) == edge_queries(
                            entities_view(entities@),
                            randoms,
                            entities@.len() as int,
                        )
                    },
                None => exists|i: int| 0 <= i < entities@.len() && !has_edge(#[trigger] entities@[i]@),
            },
    {
        let mut i: usize = 0;
        while i < entities.len()
            invariant
                i <= entities.len(),
                forall|k: int| 0 <= k < i ==> has_edge(#[trigger] entities@[k]@),
            decreases entities.len() - i,
        {
            if !entities[i].edge_known() {
                return None;
            }
            i = i + 1;
        }
        Some(Self::entity_to_insert_edge_queries(entities))
    }
}

/// The requests for the first `n` entities depend on the first `n` random
/// tags alone.
proof fn lemma_edge_queries_prefix(
    entities: Seq<EntityWithSpaceNameView>,
    randoms: Seq<Seq<char>>,
    longer: Seq<Seq<char>>,
    n: int,
)
    requires
        0 <= n <= randoms.len() <= longer.len(),
        forall|i: int| 0 <= i < randoms.len() ==> randoms[i] == longer[i],
    ensures
        edge_queries(entities, randoms, n) == edge_queries(entities, longer, n),
    decreases n,
{
    if n > 0 {
        lemma_edge_queries_prefix(entities, randoms, longer, n - 1);
    }
}

/// The entities that the first `n` changes of a batch of block `block`
/// write, in the order of the batch, each with the name of its entity type
/// as its space: an insert and an overwrite write an entity, a removal
/// writes none.
pub open spec fn written_entities(changes: Seq<ModificationView>, block: BlockNumber, n: int) -> Seq<
    EntityWithSpaceNameView,
>
    decreases n,
{
    if n <= 0 {
        Seq::empty()
    } else {
        match changes[n - 1] {
            ModificationView::Insert { key, data } => written_entities(changes, block, n - 1).push(
                EntityWithSpaceNameView {
                    space_name: key.entity_type,
                    entity: data,
                    block_number: block,
                },
            ),
            ModificationView::Overwrite { key, data } => written_entities(
                changes,
                block,
                n - 1,
            ).push(
                EntityWithSpaceNameView {
                    space_name: key.entity_type,
                    entity: data,
                    block_number: block,
                },
            ),
            ModificationView::Remove { .. } => written_entities(changes, block, n - 1),
        }
    }
}

/// Gathers the entities that a batch of block `block` writes, for the
/// graph store that mirrors them.
pub fn entities_to_mirror(mods: &Vec<EntityModification>, block: BlockNumber) -> (entities: Vec<
    EntityWithSpaceName,
>)
    ensures
        entities_view(entities@) == written_entities(batch_view(mods@), block, mods@.len() as int),
{
    let mut entities: Vec<EntityWithSpaceName> = Vec::new();
    let mut i: usize = 0;
    assert(entities_view(entities@) =~= Seq::<EntityWithSpaceNameView>::empty());
    while i < mods.len()
        invariant
            i <= mods.len(),
            entities_view(entities@) == written_entities(batch_view(mods@), block, i as int),
        decreases mods.len() - i,
    {
        assert(batch_view(mods@)[i as int] == mods@[i as int]@);
        let ghost before = entities_view(entities@);
        match &mods[i] {
            EntityModification::Insert { key, data } => {
                let entity = EntityWithSpaceName::new(key.entity_type.clone(), data.clone(), block);
                entities.push(entity);
                assert(entities_view(entities@) =~= before.push(entity@));
            },
            EntityModification::Overwrite { key, data } => {
                let entity = EntityWithSpaceName::new(key.entity_type.clone(), data.clone(), block);
                entities.push(entity);
                assert(entities_view(entities@) =~= before.push(entity@));
            },
            EntityModification::Remove { .. } => {},
        }
        i = i + 1;
    }
    entities
}

} // verus!
