use fnv::{FnvHashMap, FnvHashSet};
use pen::generic_type_definition::{
    collect_lower_types, collect_types, compile, compile_type_definition, definitions_in_order,
    TypeDefinition,
    TypeDefinitionBody, TypeKind, TypedExpression,
};
use pen::imports::{resolve_imports, CompileError};

// Indices into a table of types used below.
const NONE: u64 = 0;
const LIST: u64 = 1;
const UNION: u64 = 2;
const FUNCTION: u64 = 3;
const MAP: u64 = 4;
const NUMBER_LIST: u64 = 5;

fn kinds() -> Vec<TypeKind> {
    vec![
        TypeKind::NoneType,
        TypeKind::ListType,
        TypeKind::UnionType,
        TypeKind::FunctionType,
        TypeKind::MapType,
        TypeKind::ListType,
    ]
}

fn sorted(mut types: Vec<u64>) -> Vec<u64> {
    types.sort();
    types
}

fn set(types: &[u64]) -> FnvHashSet<u64> {
    types.iter().copied().collect()
}

#[test]
fn resolve_no_imports() {
    assert_eq!(resolve_imports(&vec![], &FnvHashMap::default()), Ok(vec![]));
}

#[test]
fn resolve_unknown_import() {
    let foo: u64 = 7;
    assert_eq!(
        resolve_imports(&vec![foo], &FnvHashMap::default()),
        Err(CompileError::ModuleNotFound(foo))
    );
}

#[test]
fn resolve_known_imports_in_order() {
    let mut interfaces = FnvHashMap::default();
    interfaces.insert(1, 10);
    interfaces.insert(2, 20);
    assert_eq!(resolve_imports(&vec![2, 1, 2], &interfaces), Ok(vec![20, 10, 20]));
}

#[test]
fn resolve_reports_first_unknown_import() {
    let mut interfaces = FnvHashMap::default();
    interfaces.insert(1, 10);
    assert_eq!(
        resolve_imports(&vec![1, 3, 4], &interfaces),
        Err(CompileError::ModuleNotFound(3))
    );
}

#[test]
fn collect_from_type_coercion() {
    let types = collect_lower_types(&vec![TypedExpression::TypeCoercion { from: FUNCTION }]);
    assert_eq!(types, vec![FUNCTION]);
}

#[test]
fn collect_from_duplicate_definitions() {
    let expression = || TypedExpression::TypeCoercion { from: LIST };
    assert_eq!(collect_lower_types(&vec![expression(), expression()]), vec![LIST]);
}

#[test]
fn collect_from_if_type() {
    let types = collect_lower_types(&vec![TypedExpression::IfType {
        branch_types: vec![LIST],
        else_type: None,
    }]);
    assert_eq!(types, vec![LIST]);
    let types = collect_lower_types(&vec![TypedExpression::IfType {
        branch_types: vec![LIST, NONE],
        else_type: Some(MAP),
    }]);
    assert_eq!(sorted(types), vec![NONE, LIST, MAP]);
}

#[test]
fn collect_from_operations() {
    let types = collect_lower_types(&vec![
        TypedExpression::EqualityOperation { operand_type: Some(LIST) },
        TypedExpression::TryOperation { operand_type: None },
        TypedExpression::TryOperation { operand_type: Some(NUMBER_LIST) },
        TypedExpression::EqualityOperation { operand_type: None },
    ]);
    assert_eq!(sorted(types), vec![LIST, NUMBER_LIST]);
}

#[test]
fn collect_from_literals_and_comprehensions() {
    let types = collect_lower_types(&vec![
        TypedExpression::ListLiteral { element_type: UNION },
        TypedExpression::MapLiteral { key_type: NUMBER_LIST, value_type: LIST },
        TypedExpression::ListComprehension { input_type: Some(UNION), output_type: NONE },
        TypedExpression::Other,
    ]);
    assert_eq!(sorted(types), vec![NONE, LIST, UNION, NUMBER_LIST]);
}

#[test]
fn collect_from_if_list_and_if_map() {
    let types = collect_lower_types(&vec![
        TypedExpression::IfList { list_type: Some(LIST) },
        TypedExpression::IfMap { key_type: Some(NUMBER_LIST), value_type: Some(LIST) },
    ]);
    assert_eq!(sorted(types), vec![LIST, NUMBER_LIST]);
}

#[test]
fn collect_nothing_from_other_expressions() {
    assert_eq!(collect_lower_types(&vec![TypedExpression::Other]), vec![]);
    assert_eq!(collect_lower_types(&vec![]), vec![]);
}

#[test]
fn collect_union_members() {
    let types = collect_types(&vec![vec![LIST, NONE], vec![NONE], vec![]]);
    assert_eq!(types, set(&[LIST, NONE]));
}

#[test]
fn compile_type_definition_of_each_kind() {
    assert_eq!(
        compile_type_definition(TypeKind::FunctionType),
        Some(TypeDefinitionBody::FunctionField)
    );
    assert_eq!(
        compile_type_definition(TypeKind::ListType),
        Some(TypeDefinitionBody::ListRecordField)
    );
    assert_eq!(
        compile_type_definition(TypeKind::MapType),
        Some(TypeDefinitionBody::MapRecordField)
    );
    for kind in [
        TypeKind::AnyType,
        TypeKind::BooleanType,
        TypeKind::StringType,
        TypeKind::NoneType,
        TypeKind::NumberType,
        TypeKind::RecordType,
    ] {
        assert_eq!(compile_type_definition(kind), None);
    }
}

#[test]
fn compile_function_and_list_definitions() {
    let mut definitions = compile(&set(&[NONE, LIST, FUNCTION]), &kinds());
    definitions.sort_by_key(|definition| definition.type_index);
    assert_eq!(
        definitions,
        vec![
            TypeDefinition { type_index: LIST, body: TypeDefinitionBody::ListRecordField },
            TypeDefinition { type_index: FUNCTION, body: TypeDefinitionBody::FunctionField },
        ]
    );
}

#[test]
fn compile_map_definition() {
    assert_eq!(
        compile(&set(&[MAP]), &kinds()),
        vec![TypeDefinition { type_index: MAP, body: TypeDefinitionBody::MapRecordField }]
    );
}

#[test]
fn compile_nothing_for_other_types() {
    assert_eq!(compile(&set(&[NONE]), &kinds()), vec![]);
    assert_eq!(compile(&set(&[]), &kinds()), vec![]);
}

#[test]
fn compile_list_through_union_members() {
    // A list literal of elements of type `[none] | none`.
    let lower = collect_lower_types(&vec![TypedExpression::ListLiteral { element_type: UNION }]);
    assert_eq!(lower, vec![UNION]);
    let members: Vec<Vec<u64>> = lower.iter().map(|_| vec![LIST, NONE]).collect();
    let types = collect_types(&members);
    assert_eq!(
        compile(&types, &kinds()),
        vec![TypeDefinition { type_index: LIST, body: TypeDefinitionBody::ListRecordField }]
    );
}

#[test]
fn definitions_follow_the_order_of_the_types() {
    // The key type before the value type, as a map literal brings them in.
    assert_eq!(
        definitions_in_order(&vec![NUMBER_LIST, NONE, LIST], &kinds()),
        vec![
            TypeDefinition { type_index: NUMBER_LIST, body: TypeDefinitionBody::ListRecordField },
            TypeDefinition { type_index: LIST, body: TypeDefinitionBody::ListRecordField },
        ]
    );
    assert_eq!(
        definitions_in_order(&vec![MAP, FUNCTION], &kinds()),
        vec![
            TypeDefinition { type_index: MAP, body: TypeDefinitionBody::MapRecordField },
            TypeDefinition { type_index: FUNCTION, body: TypeDefinitionBody::FunctionField },
        ]
    );
}
