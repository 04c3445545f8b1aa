//! The generic types of a module that need type definitions of their own:
//! the function, list and map types among the types that the module's
//! expressions match on, build or convert values from, once unions are split
//! into their members.
//!
//! A type stands here by its index in the module's table of types.

use vstd::prelude::*;
use fnv::FnvHashSet;

use crate::fnv_collections::{fnv_set_elements, fnv_set_insert};

verus! {

/// What a visited expression of a module tells of the types it converts
/// values to or from.
#[allow(inconsistent_fields)]
pub enum TypedExpression {
    /// A pattern match on a list, with the type of the list.
    IfList { list_type: Option<u64> },
    /// A lookup in a map, with the types of its keys and values.
    IfMap { key_type: Option<u64>, value_type: Option<u64> },
    /// A match on the type of a value, with the type of each branch and of the
    /// else branch where it has one.
    IfType { branch_types: Vec<u64>, else_type: Option<u64> },
    /// A list literal, with the type of its elements.
    ListLiteral { element_type: u64 },
    /// A map literal, with the types of its keys and values.
    MapLiteral { key_type: u64, value_type: u64 },
    /// A list comprehension, with the types of the input and output elements.
    ListComprehension { input_type: Option<u64>, output_type: u64 },
    /// A conversion of a value from a type to a wider one.
    TypeCoercion { from: u64 },
    /// An equality test, with the type of the compared values.
    EqualityOperation { operand_type: Option<u64> },
    /// A `?` operation, with the type of its operand.
    TryOperation { operand_type: Option<u64> },
    /// Any other expression.
    Other,
}

/// The types that an optional type names.
pub open spec fn optional_types(type_: Option<u64>) -> Set<u64> {
    match type_ {
        Some(t) => set![t],
        None => Set::empty(),
    }
}

/// Whether the types that `expression` needs are known; the types of list and
/// map matches and of the input of list comprehensions are inferred before.
pub open spec fn is_inferred(expression: TypedExpression) -> bool {
    match expression {
        TypedExpression::IfList { list_type } => list_type is Some,
        TypedExpression::IfMap { key_type, value_type } => key_type is Some && value_type is Some,
        TypedExpression::ListComprehension { input_type, .. } => input_type is Some,
        _ => true,
    }
}

/// The types, before their union members are taken, that one expression
/// brings into the set of types that may need definitions.
pub open spec fn expression_types(expression: TypedExpression) -> Set<u64> {
    match expression {
        TypedExpression::IfList { list_type } => set![list_type.unwrap()],
        TypedExpression::IfMap { key_type, value_type } => set![key_type.unwrap(), value_type.unwrap()],
        TypedExpression::IfType { branch_types, else_type } => branch_types@.to_set().union(
            optional_types(else_type),
        ),
        TypedExpression::ListLiteral { element_type } => set![element_type],
        TypedExpression::MapLiteral { key_type, value_type } => set![key_type, value_type],
        TypedExpression::ListComprehension { input_type, output_type } => set![
            input_type.unwrap(),
            output_type,
        ],
        TypedExpression::TypeCoercion { from } => set![from],
        TypedExpression::EqualityOperation { operand_type } => optional_types(operand_type),
        TypedExpression::TryOperation { operand_type } => optional_types(operand_type),
        TypedExpression::Other => Set::empty(),
    }
}

/// The types that a sequence of expressions brings in.
pub open spec fn lower_types(expressions: Seq<TypedExpression>) -> Set<u64>
    decreases expressions.len(),
{
    if expressions.len() == 0 {
        Set::empty()
    } else {
        lower_types(expressions.drop_last()).union(expression_types(expressions.last()))
    }
}

/// Every type that an expression matches on, builds, compares, converts from
/// or iterates over is among the lower types of a sequence of expressions that
/// holds the expression: the list type of a list match, the key and value
/// types of a map match, each branch type of a type match, the element,
/// key and value types of literals, the input and output types of a list
/// comprehension, the source type of a coercion and the operand type of
/// equality and `?` operations.
pub proof fn lower_types_hold_each_expression_type(expressions: Seq<TypedExpression>)
    ensures
        forall|i: int|
            0 <= i < expressions.len() ==> match #[trigger] expressions[i] {
                TypedExpression::IfList { list_type } => (list_type matches Some(t) ==> lower_types(expressions).contains(t)),
                TypedExpression::IfMap { key_type, value_type } => (key_type matches Some(t) ==> lower_types(expressions).contains(t))
                    && (value_type matches Some(t) ==> lower_types(expressions).contains(t)),
                TypedExpression::IfType { branch_types, else_type } => (forall|j: int|
                    0 <= j < branch_types@.len() ==> lower_types(expressions).contains(#[trigger] branch_types@[j])) && (
                else_type matches Some(t) ==> lower_types(expressions).contains(t)),
                TypedExpression::ListLiteral { element_type } => lower_types(expressions).contains(element_type),
                TypedExpression::MapLiteral { key_type, value_type } => lower_types(expressions).contains(key_type)
                    && lower_types(expressions).contains(value_type),
                TypedExpression::ListComprehension { input_type, output_type } => (input_type matches Some(
                    t,
                ) ==> lower_types(expressions).contains(t)) && lower_types(expressions).contains(output_type),
                TypedExpression::TypeCoercion { from } => lower_types(expressions).contains(from),
                TypedExpression::EqualityOperation { operand_type } => (operand_type matches Some(t)
                    ==> lower_types(expressions).contains(t)),
                TypedExpression::TryOperation { operand_type } => (operand_type matches Some(t)
                    ==> lower_types(expressions).contains(t)),
                TypedExpression::Other => true,
            },
    decreases expressions.len(),
{
    if expressions.len() > 0 {
        let rest = expressions.drop_last();
        lower_types_hold_each_expression_type(rest);
        assert(lower_types(expressions) == lower_types(rest).union(expression_types(expressions.last())));
        assert forall|i: int| 0 <= i < expressions.len() implies match #[trigger] expressions[i] {
            TypedExpression::IfList { list_type } => (list_type matches Some(t) ==> lower_types(expressions).contains(t)),
            TypedExpression::IfMap { key_type, value_type } => (key_type matches Some(t) ==> lower_types(expressions).contains(t))
                && (value_type matches Some(t) ==> lower_types(expressions).contains(t)),
            TypedExpression::IfType { branch_types, else_type } => (forall|j: int|
                0 <= j < branch_types@.len() ==> lower_types(expressions).contains(#[trigger] branch_types@[j])) && (
            else_type matches Some(t) ==> lower_types(expressions).contains(t)),
            TypedExpression::ListLiteral { element_type } => lower_types(expressions).contains(element_type),
            TypedExpression::MapLiteral { key_type, value_type } => lower_types(expressions).contains(key_type)
                && lower_types(expressions).contains(value_type),
            TypedExpression::ListComprehension { input_type, output_type } => (input_type matches Some(
                t,
            ) ==> lower_types(expressions).contains(t)) && lower_types(expressions).contains(output_type),
            TypedExpression::TypeCoercion { from } => lower_types(expressions).contains(from),
            TypedExpression::EqualityOperation { operand_type } => (operand_type matches Some(t)
                ==> lower_types(expressions).contains(t)),
            TypedExpression::TryOperation { operand_type } => (operand_type matches Some(t)
                ==> lower_types(expressions).contains(t)),
            TypedExpression::Other => true,
        } by {
            if i < rest.len() {
                assert(rest[i] == expressions[i]);
            } else {
                match expressions[i] {
                    TypedExpression::IfType { branch_types, else_type } => {
                        assert forall|j: int| 0 <= j < branch_types@.len() implies lower_types(expressions).contains(
                            #[trigger] branch_types@[j],
                        ) by {
                            assert(branch_types@.to_set().contains(branch_types@[j]));
                        }
                    },
                    _ => {},
                }
            }
        }
    }
}

/// Each lower type of a sequence of expressions is a type that one of the
/// expressions matches on, builds, compares, converts from or iterates over.
pub proof fn lower_types_come_from_expressions(expressions: Seq<TypedExpression>)
    requires
        forall|i: int| 0 <= i < expressions.len() ==> is_inferred(#[trigger] expressions[i]),
    ensures
        forall|t: u64|
            #[trigger] lower_types(expressions).contains(t) ==> exists|i: int|
                0 <= i < expressions.len() && match #[trigger] expressions[i] {
                    TypedExpression::IfList { list_type } => list_type == Some(t),
                    TypedExpression::IfMap { key_type, value_type } => key_type == Some(t) || value_type
                        == Some(t),
                    TypedExpression::IfType { branch_types, else_type } => branch_types@.contains(t)
                        || else_type == Some(t),
                    TypedExpression::ListLiteral { element_type } => element_type == t,
                    TypedExpression::MapLiteral { key_type, value_type } => key_type == t || value_type == t,
                    TypedExpression::ListComprehension { input_type, output_type } => input_type == Some(t)
                        || output_type == t,
                    TypedExpression::TypeCoercion { from } => from == t,
                    TypedExpression::EqualityOperation { operand_type } => operand_type == Some(t),
                    TypedExpression::TryOperation { operand_type } => operand_type == Some(t),
                    TypedExpression::Other => false,
                },
    decreases expressions.len(),
{
    if expressions.len() > 0 {
        let rest = expressions.drop_last();
        let last = expressions.last();
        assert forall|i: int| 0 <= i < rest.len() implies is_inferred(#[trigger] rest[i]) by {
            assert(rest[i] == expressions[i]);
        }
        lower_types_come_from_expressions(rest);
        assert(is_inferred(expressions[expressions.len() - 1]));
        assert forall|t: u64| #[trigger] lower_types(expressions).contains(t) implies exists|i: int|
            0 <= i < expressions.len() && match #[trigger] expressions[i] {
                TypedExpression::IfList { list_type } => list_type == Some(t),
                TypedExpression::IfMap { key_type, value_type } => key_type == Some(t) || value_type
                    == Some(t),
                TypedExpression::IfType { branch_types, else_type } => branch_types@.contains(t)
                    || else_type == Some(t),
                TypedExpression::ListLiteral { element_type } => element_type == t,
                TypedExpression::MapLiteral { key_type, value_type } => key_type == t || value_type == t,
                TypedExpression::ListComprehension { input_type, output_type } => input_type == Some(t)
                    || output_type == t,
                TypedExpression::TypeCoercion { from } => from == t,
                TypedExpression::EqualityOperation { operand_type } => operand_type == Some(t),
                TypedExpression::TryOperation { operand_type } => operand_type == Some(t),
                TypedExpression::Other => false,
            } by {
            if lower_types(rest).contains(t) {
                let i = choose|i: int|
                    0 <= i < rest.len() && match #[trigger] rest[i] {
                        TypedExpression::IfList { list_type } => list_type == Some(t),
                        TypedExpression::IfMap { key_type, value_type } => key_type == Some(t)
                            || value_type == Some(t),
                        TypedExpression::IfType { branch_types, else_type } => branch_types@.contains(t)
                            || else_type == Some(t),
                        TypedExpression::ListLiteral { element_type } => element_type == t,
                        TypedExpression::MapLiteral { key_type, value_type } => key_type == t
                            || value_type == t,
                        TypedExpression::ListComprehension { input_type, output_type } => input_type
                            == Some(t) || output_type == t,
                        TypedExpression::TypeCoercion { from } => from == t,
                        TypedExpression::EqualityOperation { operand_type } => operand_type == Some(t),
                        TypedExpression::TryOperation { operand_type } => operand_type == Some(t),
                        TypedExpression::Other => false,
                    };
                assert(rest[i] == expressions[i]);
            } else {
                assert(expression_types(last).contains(t));
                assert(expressions[expressions.len() - 1] == last);
            }
        }
    }
}

/// Adds the types that `expression` brings in to `types`.
fn insert_expression_types(types: &mut FnvHashSet<u64>, expression: &TypedExpression)
    requires
        is_inferred(*expression),
    ensures
        final(types)@ == old(types)@.union(expression_types(*expression)),
{
    match expression {
        TypedExpression::IfList { list_type } => {
            fnv_set_insert(types, list_type.unwrap());
        },
        TypedExpression::IfMap { key_type, value_type } => {
            fnv_set_insert(types, key_type.unwrap());
            fnv_set_insert(types, value_type.unwrap());
        },
        TypedExpression::IfType { branch_types, else_type } => {
            let mut i: usize = 0;
            while i < branch_types.len()
                invariant
                    i <= branch_types.len(),
                    types@ == old(types)@.union(branch_types@.take(i as int).to_set()),
                decreases branch_types.len() - i,
            {
                fnv_set_insert(types, branch_types[i]);
                assert(branch_types@.take(i + 1).to_set() =~= branch_types@.take(i as int).to_set().insert(
                    branch_types@[i as int],
                )) by {
                    assert(branch_types@.take(i + 1) =~= branch_types@.take(i as int).push(
                        branch_types@[i as int],
                    ));
                    branch_types@.take(i as int).lemma_push_to_set_commute(branch_types@[i as int]);
                }
                assert(types@ =~= old(types)@.union(branch_types@.take(i + 1).to_set()));
                i = i + 1;
            }
            assert(branch_types@.take(i as int) == branch_types@);
            if let Some(t) = else_type {
                fnv_set_insert(types, *t);
            }
        },
        TypedExpression::ListLiteral { element_type } => {
            fnv_set_insert(types, *element_type);
        },
        TypedExpression::MapLiteral { key_type, value_type } => {
            fnv_set_insert(types, *key_type);
            fnv_set_insert(types, *value_type);
        },
        TypedExpression::ListComprehension { input_type, output_type } => {
            fnv_set_insert(types, input_type.unwrap());
            fnv_set_insert(types, *output_type);
        },
        TypedExpression::TypeCoercion { from } => {
            fnv_set_insert(types, *from);
        },
        TypedExpression::EqualityOperation { operand_type } => {
            if let Some(t) = operand_type {
                fnv_set_insert(types, *t);
            }
        },
        TypedExpression::TryOperation { operand_type } => {
            if let Some(t) = operand_type {
                fnv_set_insert(types, *t);
            }
        },
        TypedExpression::Other => {},
    }
    assert(final(types)@ =~= old(types)@.union(expression_types(*expression)));
}


/// Collects the types that the visited expressions of a module bring in,
/// each once, in the order in which their set is walked.
pub fn collect_lower_types(expressions: &Vec<TypedExpression>) -> (res: Vec<u64>)
    requires
        forall|i: int| 0 <= i < expressions.len() ==> is_inferred(#[trigger] expressions@[i]),
    ensures
        res@.to_set() == lower_types(expressions@),
        res@.no_duplicates(),
        forall|i: int|
            0 <= i < expressions.len() ==> match #[trigger] expressions@[i] {
                TypedExpression::IfList { list_type } => (list_type matches Some(t) ==> res@.contains(t)),
                TypedExpression::IfMap { key_type, value_type } => (key_type matches Some(t) ==> res@.contains(t))
                    && (value_type matches Some(t) ==> res@.contains(t)),
                TypedExpression::IfType { branch_types, else_type } => (forall|j: int|
                    0 <= j < branch_types@.len() ==> res@.contains(#[trigger] branch_types@[j])) && (
                else_type matches Some(t) ==> res@.contains(t)),
                TypedExpression::ListLiteral { element_type } => res@.contains(element_type),
                TypedExpression::MapLiteral { key_type, value_type } => res@.contains(key_type)
                    && res@.contains(value_type),
                TypedExpression::ListComprehension { input_type, output_type } => (input_type matches Some(
                    t,
                ) ==> res@.contains(t)) && res@.contains(output_type),
                TypedExpression::TypeCoercion { from } => res@.contains(from),
                TypedExpression::EqualityOperation { operand_type } => (operand_type matches Some(t)
                    ==> res@.contains(t)),
                TypedExpression::TryOperation { operand_type } => (operand_type matches Some(t)
                    ==> res@.contains(t)),
                TypedExpression::Other => true,
            },
        forall|t: u64|
            #[trigger] res@.contains(t) ==> exists|i: int|
                0 <= i < expressions.len() && match #[trigger] expressions@[i] {
                    TypedExpression::IfList { list_type } => list_type == Some(t),
                    TypedExpression::IfMap { key_type, value_type } => key_type == Some(t) || value_type
                        == Some(t),
                    TypedExpression::IfType { branch_types, else_type } => branch_types@.contains(t)
                        || else_type == Some(t),
                    TypedExpression::ListLiteral { element_type } => element_type == t,
                    TypedExpression::MapLiteral { key_type, value_type } => key_type == t || value_type == t,
                    TypedExpression::ListComprehension { input_type, output_type } => input_type == Some(t)
                        || output_type == t,
                    TypedExpression::TypeCoercion { from } => from == t,
                    TypedExpression::EqualityOperation { operand_type } => operand_type == Some(t),
                    TypedExpression::TryOperation { operand_type } => operand_type == Some(t),
                    TypedExpression::Other => false,
                },
{
    let mut types: FnvHashSet<u64> = FnvHashSet::default();
    let mut i: usize = 0;
    while i < expressions.len()
        invariant
            i <= expressions.len(),
            forall|j: int| 0 <= j < expressions.len() ==> is_inferred(#[trigger] expressions@[j]),
            types@ == lower_types(expressions@.take(i as int)),
        decreases expressions.len() - i,
    {
        insert_expression_types(&mut types, &expressions[i]);
        assert(expressions@.take(i + 1).drop_last() =~= expressions@.take(i as int));
        i = i + 1;
    }
    assert(expressions@.take(i as int) =~= expressions@);
    let res = fnv_set_elements(&types);
    proof {
        lower_types_hold_each_expression_type(expressions@);
        lower_types_come_from_expressions(expressions@);
        assert forall|t: u64| res@.contains(t) <==> lower_types(expressions@).contains(t) by {
            assert(res@.to_set().contains(t) == res@.contains(t));
        }
    }
    res
}

/// All the types in a sequence of lists of union members.
pub open spec fn member_types(members: Seq<Seq<u64>>) -> Set<u64>
    decreases members.len(),
{
    if members.len() == 0 {
        Set::empty()
    } else {
        member_types(members.drop_last()).union(members.last().to_set())
    }
}

/// The members collected from lists of union members are exactly the members
/// in the lists: each member of each list, and nothing else.
pub proof fn member_types_are_the_members(members: Seq<Seq<u64>>)
    ensures
        forall|i: int, j: int|
            0 <= i < members.len() && 0 <= j < members[i].len() ==> member_types(members).contains(
                #[trigger] members[i][j],
            ),
        forall|t: u64|
            #[trigger] member_types(members).contains(t) ==> exists|i: int, j: int|
                0 <= i < members.len() && 0 <= j < members[i].len() && #[trigger] members[i][j] == t,
    decreases members.len(),
{
    if members.len() > 0 {
        let rest = members.drop_last();
        let last = members.last();
        member_types_are_the_members(rest);
        assert forall|i: int, j: int|
            0 <= i < members.len() && 0 <= j < members[i].len() implies member_types(members).contains(
                #[trigger] members[i][j],
            ) by {
            if i < rest.len() {
                assert(rest[i] == members[i]);
                assert(member_types(rest).contains(rest[i][j]));
            } else {
                assert(last.to_set().contains(last[j]));
            }
        }
        assert forall|t: u64| #[trigger] member_types(members).contains(t) implies exists|i: int, j: int|
            0 <= i < members.len() && 0 <= j < members[i].len() && #[trigger] members[i][j] == t by {
            if member_types(rest).contains(t) {
                let (i, j) = choose|i: int, j: int|
                    0 <= i < rest.len() && 0 <= j < rest[i].len() && #[trigger] rest[i][j] == t;
                assert(rest[i] == members[i]);
            } else {
                assert(last.to_set().contains(t));
                let j = choose|j: int| 0 <= j < last.len() && last[j] == t;
                assert(members[members.len() - 1][j] == t);
            }
        }
    }
}

/// Collects the members of the unions of the lower types, given the list of
/// members of each: the types that may need definitions.
pub fn collect_types(members: &Vec<Vec<u64>>) -> (res: FnvHashSet<u64>)
    ensures
        res@ == member_types(members@.map_values(|m: Vec<u64>| m@)),
        forall|i: int, j: int|
            0 <= i < members.len() && 0 <= j < members@[i]@.len() ==> res@.contains(
                #[trigger] members@[i]@[j],
            ),
        forall|t: u64|
            #[trigger] res@.contains(t) ==> exists|i: int, j: int|
                0 <= i < members.len() && 0 <= j < members@[i]@.len() && #[trigger] members@[i]@[j]
                    == t,
{
    let ghost lists = members@.map_values(|m: Vec<u64>| m@);
    let mut types: FnvHashSet<u64> = FnvHashSet::default();
    let mut i: usize = 0;
    while i < members.len()
        invariant
            i <= members.len(),
            lists == members@.map_values(|m: Vec<u64>| m@),
            types@ == member_types(lists.take(i as int)),
        decreases members.len() - i,
    {
        let list = &members[i];
        let ghost before = types@;
        let mut j: usize = 0;
        while j < list.len()
            invariant
                j <= list.len(),
                types@ == before.union(list@.take(j as int).to_set()),
            decreases list.len() - j,
        {
            fnv_set_insert(&mut types, list[j]);
            assert(list@.take(j + 1) =~= list@.take(j as int).push(list@[j as int]));
            proof {
                list@.take(j as int).lemma_push_to_set_commute(list@[j as int]);
            }
            assert(types@ =~= before.union(list@.take(j + 1).to_set()));
            j = j + 1;
        }
        assert(list@.take(j as int) =~= list@);
        assert(lists.take(i + 1).drop_last() =~= lists.take(i as int));
        assert(lists.take(i + 1).last() == list@);
        i = i + 1;
    }
    assert(lists.take(i as int) =~= lists);
    proof {
        member_types_are_the_members(lists);
        assert forall|i: int, j: int|
            0 <= i < members.len() && 0 <= j < members@[i]@.len() implies types@.contains(
                #[trigger] members@[i]@[j],
            ) by {
            assert(lists[i] == members@[i]@);
            assert(member_types(lists).contains(lists[i][j]));
        }
        assert forall|t: u64| #[trigger] types@.contains(t) implies exists|i: int, j: int|
            0 <= i < members.len() && 0 <= j < members@[i]@.len() && #[trigger] members@[i]@[j] == t by {
            let (i, j) = choose|i: int, j: int|
                0 <= i < lists.len() && 0 <= j < lists[i].len() && #[trigger] lists[i][j] == t;
            assert(lists[i] == members@[i]@);
        }
    }
    types
}

/// The shape of a type, which decides whether it needs a definition.
#[derive(Clone, Copy, Debug, PartialEq, Eq, Structural)]
pub enum TypeKind {
    AnyType,
    BooleanType,
    StringType,
    NoneType,
    NumberType,
    RecordType,
    FunctionType,
    ListType,
    MapType,
    ReferenceType,
    UnionType,
}

/// The field of the record that a generic type is defined as.
#[derive(Clone, Copy, Debug, PartialEq, Eq, Structural)]
pub enum TypeDefinitionBody {
    /// The compiled function type itself.
    FunctionField,
    /// The runtime's list record.
    ListRecordField,
    /// The runtime's map record.
    MapRecordField,
}

/// A definition of a generic type: the type, by its index, and the field of
/// the record that it is defined as.
#[derive(Clone, Copy, Debug, PartialEq, Eq, Structural)]
pub struct TypeDefinition {
    pub type_index: u64,
    pub body: TypeDefinitionBody,
}

/// Whether a type of this shape can stand here: references are resolved and
/// unions are split into their members before.
pub open spec fn is_concrete(kind: TypeKind) -> bool {
    kind != TypeKind::ReferenceType && kind != TypeKind::UnionType
}

/// The definition body of a type of this shape, where it needs one.
pub open spec fn definition_body(kind: TypeKind) -> Option<TypeDefinitionBody> {
    match kind {
        TypeKind::FunctionType => Some(TypeDefinitionBody::FunctionField),
        TypeKind::ListType => Some(TypeDefinitionBody::ListRecordField),
        TypeKind::MapType => Some(TypeDefinitionBody::MapRecordField),
        _ => None,
    }
}

/// The definition body of a type, if it needs one.
pub fn compile_type_definition(kind: TypeKind) -> (res: Option<TypeDefinitionBody>)
    requires
        is_concrete(kind),
    ensures
        res == definition_body(kind),
        kind == TypeKind::FunctionType ==> res == Some(TypeDefinitionBody::FunctionField),
        kind == TypeKind::ListType ==> res == Some(TypeDefinitionBody::ListRecordField),
        kind == TypeKind::MapType ==> res == Some(TypeDefinitionBody::MapRecordField),
        kind != TypeKind::FunctionType && kind != TypeKind::ListType && kind != TypeKind::MapType
            ==> res is None,
{
    match kind {
        TypeKind::FunctionType => Some(TypeDefinitionBody::FunctionField),
        TypeKind::ListType => Some(TypeDefinitionBody::ListRecordField),
        TypeKind::MapType => Some(TypeDefinitionBody::MapRecordField),
        TypeKind::AnyType | TypeKind::BooleanType | TypeKind::StringType | TypeKind::NoneType
        | TypeKind::NumberType | TypeKind::RecordType => None,
        TypeKind::ReferenceType | TypeKind::UnionType => {
            proof {
                assert(false);
            }
            None
        },
    }
}

/// The definitions of the generic types among `types`, taken in this order,
/// where `kinds[t]` is the shape of the type of index `t`.
pub open spec fn definitions_of(types: Seq<u64>, kinds: Seq<TypeKind>) -> Seq<TypeDefinition>
    decreases types.len(),
{
    if types.len() == 0 {
        Seq::empty()
    } else {
        let previous = definitions_of(types.drop_last(), kinds);
        match definition_body(kinds[types.last() as int]) {
            Some(body) => previous.push(TypeDefinition { type_index: types.last(), body }),
            None => previous,
        }
    }
}

/// Compiles the definitions of the generic types among `elements`, taken in
/// this order, where `kinds[t]` is the shape of the type of index `t`.
pub fn definitions_in_order(elements: &Vec<u64>, kinds: &Vec<TypeKind>) -> (res: Vec<TypeDefinition>)
    requires
        forall|i: int|
            0 <= i < elements.len() ==> #[trigger] elements@[i] < kinds.len() && is_concrete(
                kinds@[elements@[i] as int],
            ),
    ensures
        res@ == definitions_of(elements@, kinds@),
{
    let mut definitions: Vec<TypeDefinition> = Vec::new();
    let mut i: usize = 0;
    while i < elements.len()
        invariant
            i <= elements.len(),
            forall|k: int|
                0 <= k < elements.len() ==> #[trigger] elements@[k] < kinds.len() && is_concrete(
                    kinds@[elements@[k] as int],
                ),
            definitions@ == definitions_of(elements@.take(i as int), kinds@),
        decreases elements.len() - i,
    {
        let t = elements[i];
        assert(elements@.take(i + 1).drop_last() =~= elements@.take(i as int));
        assert(elements@.take(i + 1).last() == t);
        match compile_type_definition(kinds[t as usize]) {
            Some(body) => {
                definitions.push(TypeDefinition { type_index: t, body });
            },
            None => {},
        }
        i = i + 1;
    }
    assert(elements@.take(i as int) =~= elements@);
    definitions
}

/// Compiles the definitions of the generic types among `types`, where
/// `kinds[t]` is the shape of the type of index `t`: the types are taken in
/// the order in which the set is walked.
pub fn compile(types: &FnvHashSet<u64>, kinds: &Vec<TypeKind>) -> (res: Vec<TypeDefinition>)
    requires
        forall|t: u64| #[trigger] types@.contains(t) ==> t < kinds.len() && is_concrete(kinds@[t as int]),
    ensures
        exists|order: Seq<u64>|
            {
                &&& order.to_set() == types@
                &&& order.no_duplicates()
                &&& res@ == definitions_of(order, kinds@)
            },
{
    let elements = fnv_set_elements(types);
    assert forall|i: int| 0 <= i < elements.len() implies #[trigger] elements@[i] < kinds.len()
        && is_concrete(kinds@[elements@[i] as int]) by {
        assert(elements@.to_set().contains(elements@[i]));
    }
    definitions_in_order(&elements, kinds)
}

/// The types that two sequences of expressions bring in together are those
/// that each brings in.
pub proof fn lemma_lower_types_concat(first: Seq<TypedExpression>, second: Seq<TypedExpression>)
    ensures
        lower_types(first + second) == lower_types(first).union(lower_types(second)),
    decreases second.len(),
{
    if second.len() == 0 {
        assert(first + second =~= first);
        assert(lower_types(first).union(Set::empty()) =~= lower_types(first));
    } else {
        lemma_lower_types_concat(first, second.drop_last());
        assert((first + second).drop_last() =~= first + second.drop_last());
        assert((first + second).last() == second.last());
        assert(lower_types(first + second) =~= lower_types(first).union(lower_types(second)));
    }
}

/// A module in which the same expressions stand twice needs the same types as
/// one in which they stand once: a duplicated definition adds no type
/// definitions.
pub proof fn duplicate_expressions_add_no_types(expressions: Seq<TypedExpression>)
    ensures
        lower_types(expressions + expressions) == lower_types(expressions),
{
    lemma_lower_types_concat(expressions, expressions);
    assert(lower_types(expressions).union(lower_types(expressions)) =~= lower_types(expressions));
}

/// The order in which expressions are visited does not change the types that
/// they bring in.
pub proof fn lower_types_ignore_order(first: Seq<TypedExpression>, second: Seq<TypedExpression>)
    ensures
        lower_types(first + second) == lower_types(second + first),
{
    lemma_lower_types_concat(first, second);
    lemma_lower_types_concat(second, first);
    assert(lower_types(first).union(lower_types(second)) =~= lower_types(second).union(
        lower_types(first),
    ));
}

/// Whatever the order in which the types are taken, each definition is of one
/// of them and has the body that its shape calls for, each function, list
/// and map type among them gets a definition, and no type gets two.
pub proof fn each_generic_type_defined_once(types: Seq<u64>, kinds: Seq<TypeKind>)
    requires
        types.no_duplicates(),
    ensures
        forall|i: int|
            0 <= i < definitions_of(types, kinds).len() ==> {
                &&& types.contains(#[trigger] definitions_of(types, kinds)[i].type_index)
                &&& definition_body(kinds[definitions_of(types, kinds)[i].type_index as int])
                    == Some(definitions_of(types, kinds)[i].body)
            },
        forall|t: u64|
            #[trigger] types.contains(t) && definition_body(kinds[t as int]) is Some ==> exists|i: int|
                0 <= i < definitions_of(types, kinds).len() && #[trigger] definitions_of(
                    types,
                    kinds,
                )[i].type_index == t,
        forall|i: int, j: int|
            0 <= i < definitions_of(types, kinds).len() && 0 <= j < definitions_of(types, kinds).len()
                && i != j ==> definitions_of(types, kinds)[i].type_index != definitions_of(
                types,
                kinds,
            )[j].type_index,
    decreases types.len(),
{
    if types.len() > 0 {
        let rest = types.drop_last();
        let last = types.last();
        assert(rest.no_duplicates());
        each_generic_type_defined_once(rest, kinds);
        assert(!rest.contains(last));
        let previous = definitions_of(rest, kinds);
        let current = definitions_of(types, kinds);
        assert forall|t: u64| #[trigger] types.contains(t) && definition_body(kinds[t as int]) is Some implies exists|i: int|
            0 <= i < current.len() && #[trigger] current[i].type_index == t by {
            if t == last {
                assert(current[current.len() - 1].type_index == t);
            } else {
                let k = choose|k: int| 0 <= k < types.len() && types[k] == t;
                assert(k != types.len() - 1);
                assert(rest[k] == t);
                assert(rest.contains(t));
                let i = choose|i: int| 0 <= i < previous.len() && #[trigger] previous[i].type_index == t;
                assert(current[i] == previous[i]);
            }
        }
        assert forall|i: int| 0 <= i < current.len() implies types.contains(
            #[trigger] current[i].type_index,
        ) by {
            if i < previous.len() {
                assert(current[i] == previous[i]);
                let k = choose|k: int| 0 <= k < rest.len() && rest[k] == previous[i].type_index;
                assert(types[k] == rest[k]);
            } else {
                assert(types[types.len() - 1] == last);
            }
        }
    }
}

} // verus!
