//! Entities, their keys, and the changes that one block makes to them.

use vstd::prelude::*;
use crate::block::{copy_bytes, copy_strings, texts};

verus! {

/// The logical identity of an entity, whatever the block.
#[derive(Debug)]
pub struct EntityKey {
    pub entity_type: String,
    pub entity_id: String,
}

/// The mathematical value of an `EntityKey`.
pub struct EntityKeyView {
    pub entity_type: Seq<char>,
    pub entity_id: Seq<char>,
}

impl View for EntityKey {
    type V = EntityKeyView;

    open spec fn view(&self) -> EntityKeyView {
        EntityKeyView { entity_type: self.entity_type@, entity_id: self.entity_id@ }
    }
}

impl Clone for EntityKey {
    fn clone(&self) -> (res: Self)
        ensures
            res@ == self@,
    {
        EntityKey { entity_type: self.entity_type.clone(), entity_id: self.entity_id.clone() }
    }
}

impl EntityKey {
    pub fn new(entity_type: String, entity_id: String) -> (key: Self)
        ensures
            key@.entity_type == entity_type@,
            key@.entity_id == entity_id@,
    {
        EntityKey { entity_type, entity_id }
    }

    /// Whether two keys name the same entity.
    pub fn same(&self, other: &EntityKey) -> (res: bool)
        ensures
            res == (self@ == other@),
    {
        self.entity_type == other.entity_type && self.entity_id == other.entity_id
    }
}

/// The value of one attribute of an entity.
#[derive(Debug)]
pub enum Value {
    String(String),
    Int(i32),
    /// A decimal number, in its text form.
    BigDecimal(String),
    Bool(bool),
    /// A list, each element in its text form.
    List(Vec<String>),
    Null,
    Bytes(Vec<u8>),
    /// An integer of any size, in its text form.
    BigInt(String),
}

/// The mathematical value of a `Value`.
pub enum ValueView {
    String(Seq<char>),
    Int(i32),
    BigDecimal(Seq<char>),
    Bool(bool),
    List(Seq<Seq<char>>),
    Null,
    Bytes(Seq<u8>),
    BigInt(Seq<char>),
}

impl View for Value {
    type V = ValueView;

    open spec fn view(&self) -> ValueView {
        match self {
            Value::String(s) => ValueView::String(s@),
            Value::Int(i) => ValueView::Int(*i),
            Value::BigDecimal(d) => ValueView::BigDecimal(d@),
            Value::Bool(b) => ValueView::Bool(*b),
            Value::List(l) => ValueView::List(texts(l@)),
            Value::Null => ValueView::Null,
            Value::Bytes(b) => ValueView::Bytes(b@),
            Value::BigInt(n) => ValueView::BigInt(n@),
        }
    }
}

impl Clone for Value {
    fn clone(&self) -> (res: Self)
        ensures
            res@ == self@,
    {
        match self {
            Value::String(s) => Value::String(s.clone()),
            Value::Int(i) => Value::Int(*i),
            Value::BigDecimal(d) => Value::BigDecimal(d.clone()),
            Value::Bool(b) => Value::Bool(*b),
            Value::List(l) => Value::List(copy_strings(l)),
            Value::Null => Value::Null,
            Value::Bytes(b) => Value::Bytes(copy_bytes(b)),
            Value::BigInt(n) => Value::BigInt(n.clone()),
        }
    }
}

/// One named attribute of an entity.
#[derive(Debug)]
pub struct Attribute {
    pub name: String,
    pub value: Value,
}

/// The mathematical value of an `Attribute`.
pub struct AttributeView {
    pub name: Seq<char>,
    pub value: ValueView,
}

impl View for Attribute {
    type V = AttributeView;

    open spec fn view(&self) -> AttributeView {
        AttributeView { name: self.name@, value: self.value@ }
    }
}

impl Clone for Attribute {
    fn clone(&self) -> (res: Self)
        ensures
            res@ == self@,
    {
        Attribute { name: self.name.clone(), value: self.value.clone() }
    }
}

/// An entity: its attributes, in the order in which they were set.
#[derive(Debug)]
pub struct Entity {
    pub attributes: Vec<Attribute>,
}

impl View for Entity {
    type V = Seq<AttributeView>;

    open spec fn view(&self) -> Seq<AttributeView> {
        self.attributes@.map_values(|a: Attribute| a@)
    }
}

impl Clone for Entity {
    fn clone(&self) -> (res: Self)
        ensures
            res@ == self@,
    {
        let mut attributes: Vec<Attribute> = Vec::new();
        let mut i: usize = 0;
        while i < self.attributes.len()
            invariant
                i <= self.attributes.len(),
                attributes@.len() == i,
                forall|j: int| 0 <= j < i ==> attributes@[j]@ == self.attributes@[j]@,
            decreases self.attributes.len() - i,
        {
            attributes.push(self.attributes[i].clone());
            i = i + 1;
        }
        let res = Entity { attributes };
        assert(res@ =~= self@);
        res
    }
}

/// The value of the first attribute called `name` at or after position
/// `from`, if there is one.
pub open spec fn attribute_from(entity: Seq<AttributeView>, name: Seq<char>, from: int) -> Option<
    ValueView,
>
    decreases entity.len() - from,
{
    if from < 0 || from >= entity.len() {
        None
    } else if entity[from].name == name {
        Some(entity[from].value)
    } else {
        attribute_from(entity, name, from + 1)
    }
}

/// The value that the first attribute called `name` holds, if there is one.
pub open spec fn attribute_of(entity: Seq<AttributeView>, name: Seq<char>) -> Option<ValueView> {
    attribute_from(entity, name, 0)
}

impl Entity {
    pub fn new() -> (entity: Self)
        ensures
            entity@ == Seq::<AttributeView>::empty(),
    {
        let entity = Entity { attributes: Vec::new() };
        assert(entity@ =~= Seq::<AttributeView>::empty());
        entity
    }

    /// Appends the attribute `name` with `value`.
    pub fn add(&mut self, name: String, value: Value)
        ensures
            final(self)@ == old(self)@.push(AttributeView { name: name@, value: value@ }),
    {
        self.attributes.push(Attribute { name, value });
        assert(self@ =~= old(self)@.push(AttributeView { name: name@, value: value@ }));
    }

    /// The value of the attribute `name`, if the entity has one.
    pub fn get(&self, name: &str) -> (res: Option<&Value>)
        ensures
            match res {
                Some(v) => attribute_of(self@, name@) == Some(v@),
                None => attribute_of(self@, name@) is None,
            },
    {
        let mut i: usize = 0;
        while i < self.attributes.len()
            invariant
                i <= self.attributes.len(),
                attribute_of(self@, name@) == attribute_from(self@, name@, i as int),
            decreases self.attributes.len() - i,
        {
            if str_eq(self.attributes[i].name.as_str(), name) {
                return Some(&self.attributes[i].value);
            }
            i = i + 1;
        }
        None
    }
}

/// Whether two string slices hold the same text.
pub fn str_eq(a: &str, b: &str) -> (res: bool)
    ensures
        res == (a@ == b@),
{
    let left = a.to_owned();
    let right = b.to_owned();
    left == right
}

/// One change to one entity; a block's changes are applied as one batch.
#[derive(Debug)]
pub enum EntityModification {
    /// Insert the entity.
    Insert { key: EntityKey, data: Entity },
    /// Update the entity by overwriting it.
    Overwrite { key: EntityKey, data: Entity },
    /// Remove the entity.
    Remove { key: EntityKey },
}

/// The mathematical value of an `EntityModification`.
pub enum ModificationView {
    Insert { key: EntityKeyView, data: Seq<AttributeView> },
    Overwrite { key: EntityKeyView, data: Seq<AttributeView> },
    Remove { key: EntityKeyView },
}

impl View for EntityModification {
    type V = ModificationView;

    open spec fn view(&self) -> ModificationView {
        match self {
            EntityModification::Insert { key, data } => ModificationView::Insert {
                key: key@,
                data: data@,
            },
            EntityModification::Overwrite { key, data } => ModificationView::Overwrite {
                key: key@,
                data: data@,
            },
            EntityModification::Remove { key } => ModificationView::Remove { key: key@ },
        }
    }
}

impl ModificationView {
    /// The key of the entity that the change is about.
    pub open spec fn key(self) -> EntityKeyView {
        match self {
            ModificationView::Insert { key, .. } => key,
            ModificationView::Overwrite { key, .. } => key,
            ModificationView::Remove { key } => key,
        }
    }
}

impl EntityModification {
    /// The key of the entity that the change is about.
    pub fn entity_key(&self) -> (key: &EntityKey)
        ensures
            key@ == self@.key(),
    {
        match self {
            EntityModification::Insert { key, .. } => key,
            EntityModification::Overwrite { key, .. } => key,
            EntityModification::Remove { key } => key,
        }
    }
}

/// The mathematical values of a batch of changes.
pub open spec fn batch_view(mods: Seq<EntityModification>) -> Seq<ModificationView> {
    mods.map_values(|m: EntityModification| m@)
}

} // verus!
