//! The entity-relationship model whose attributes supply an expression's
//! variables: plain containers.

use crate::value::Value;
use std::collections::HashMap;
use vstd::prelude::*;

verus! {

/// A named set of entity definitions.
pub struct ModelDefinition {
    pub name: String,
    pub entities: HashMap<String, EntityDefinition>,
}

/// The entities that exist under a model, by entity name and then by key.
pub struct ModelInstance {
    pub definition: ModelDefinition,
    pub entities: HashMap<String, HashMap<String, EntityInstance>>,
}

/// How many of the right entity one left entity relates to.
pub enum RelationType {
    OneToOne { entity_left_name: String, entity_right_name: String },
    OneToMany { entity_left_name: String, entity_right_name: String },
    ZeroToMany { entity_left_name: String, entity_right_name: String },
}

/// A named relation between two entities.
pub struct RelationDefinition {
    pub name: String,
    pub relation_type: RelationType,
}

/// One occurrence of a relation.
pub struct RelationInstance {
    pub definition: RelationDefinition,
}

/// A named entity with its attributes and relations.
pub struct EntityDefinition {
    pub name: String,
    pub attributes: HashMap<String, AttributeDefinition>,
    pub relations: HashMap<String, RelationDefinition>,
}

/// One occurrence of an entity, with a value for each attribute.
pub struct EntityInstance {
    pub definition: EntityDefinition,
    pub attributes: HashMap<String, AttributeInstance>,
}

/// The tier and kind of a numeric value.
#[derive(Clone, Copy, Debug, PartialEq, Eq, Structural)]
pub enum ValueType {
    PreciseDecimal,
    PreciseInteger,
    FastDecimal,
    FastInteger,
}

impl ValueType {
    /// Whether values of this type are arbitrary-precision.
    pub open spec fn is_precise(self) -> bool {
        self == ValueType::PreciseDecimal || self == ValueType::PreciseInteger
    }

    /// Whether values of this type are decimals.
    pub open spec fn is_decimal(self) -> bool {
        self == ValueType::PreciseDecimal || self == ValueType::FastDecimal
    }
}

/// A named attribute and the type of its values.
pub struct AttributeDefinition {
    pub name: String,
    pub value_type: ValueType,
}

/// An attribute's value in one entity.
pub struct AttributeInstance {
    pub definition: AttributeDefinition,
    pub value: Value,
}

} // verus!
