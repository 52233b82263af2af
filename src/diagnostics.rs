use vstd::prelude::*;
use vstd::string::StringExecFns;

use crate::syntax::Span;

verus! {

/// A rule of the specification dialect that a source unit breaks.
#[derive(Debug, Clone, Copy, PartialEq, Eq, Structural)]
pub enum Violation {
    InvalidSpec,
    InvalidTypeReference,
    ComputedSignature,
    OptionalSignature,
    OptionalProperty,
    OptionalParameter,
    MissingSpecGeneric,
    SpecGenericCount,
    SpecGenericNotReference,
    InvalidSpecReference,
    FunctionType,
    TypeLiteral,
    UnionType,
    MixedEnumMembers,
    FloatEnumMember,
    EnumValueOverflow,
    InvalidRegistryMethod,
    ReservedArgName,
    ReservedMethodName,
    ReservedType,
    NullablePrefix,
    TypeParameters,
    InvalidPromise,
    NullablePromise,
    PromisePosition,
    DuplicateModuleName,
    ModuleNameNotLiteral,
    ModuleNameMissing,
}

/// A violation and where in the source it stands.
#[derive(Debug, Clone, Copy, PartialEq, Eq, Structural)]
pub struct Diagnostic {
    pub violation: Violation,
    pub span: Span,
}

/// The message shown for a violation.
pub open spec fn message_of(v: Violation) -> Seq<char> {
    match v {
        Violation::InvalidSpec => "Invalid specification"@,
        Violation::InvalidTypeReference => "Invalid type reference"@,
        Violation::ComputedSignature => "Computed signature is not supported"@,
        Violation::OptionalSignature => "Optional signature is not supported"@,
        Violation::OptionalProperty => "Optional property is not supported"@,
        Violation::OptionalParameter => "Optional parameter is not supported"@,
        Violation::MissingSpecGeneric => "NativeModule specification generic argument is required"@,
        Violation::SpecGenericCount => "NativeModule specification generic argument must be exactly one"@,
        Violation::SpecGenericNotReference => "Specification generic argument must be a type reference"@,
        Violation::InvalidSpecReference => "Invalid specification type reference"@,
        Violation::FunctionType => "Function parameter is not supported"@,
        Violation::TypeLiteral => "Type literal is not supported. Use defined type reference instead"@,
        Violation::UnionType => "Union types only allow nullable type (eg. `T | null`)"@,
        Violation::MixedEnumMembers => "Enum member type must be single type (eg. only `number` or `string`)"@,
        Violation::FloatEnumMember => "Float number is not supported in enum"@,
        Violation::EnumValueOverflow => "Enum member value is out of range"@,
        Violation::InvalidRegistryMethod => "Invalid NativeModuleRegistry method"@,
        Violation::ReservedArgName => "Reserved argument name `it_` is not allowed"@,
        Violation::ReservedMethodName => "Reserved method name `emit` is not allowed"@,
        Violation::ReservedType => "Cannot use reserved type: Promise"@,
        Violation::NullablePrefix => "Nullable prefix is not allowed"@,
        Violation::TypeParameters => "Type parameters are not supported"@,
        Violation::InvalidPromise => "Invalid promise type"@,
        Violation::NullablePromise => "Promise type cannot be nullable"@,
        Violation::PromisePosition => "Promise type is only allowed as a method return type"@,
        Violation::DuplicateModuleName => "Duplicate module name"@,
        Violation::ModuleNameNotLiteral => "NativeModule name must be a string literal"@,
        Violation::ModuleNameMissing => "NativeModule name is required"@,
    }
}

impl Violation {
    /// The message shown to the user.
    pub fn message(&self) -> (r: String)
        ensures
            r@ == message_of(*self),
    {
        let s = match self {
            Violation::InvalidSpec => "Invalid specification",
            Violation::InvalidTypeReference => "Invalid type reference",
            Violation::ComputedSignature => "Computed signature is not supported",
            Violation::OptionalSignature => "Optional signature is not supported",
            Violation::OptionalProperty => "Optional property is not supported",
            Violation::OptionalParameter => "Optional parameter is not supported",
            Violation::MissingSpecGeneric => "NativeModule specification generic argument is required",
            Violation::SpecGenericCount => "NativeModule specification generic argument must be exactly one",
            Violation::SpecGenericNotReference => "Specification generic argument must be a type reference",
            Violation::InvalidSpecReference => "Invalid specification type reference",
            Violation::FunctionType => "Function parameter is not supported",
            Violation::TypeLiteral => "Type literal is not supported. Use defined type reference instead",
            Violation::UnionType => "Union types only allow nullable type (eg. `T | null`)",
            Violation::MixedEnumMembers => "Enum member type must be single type (eg. only `number` or `string`)",
            Violation::FloatEnumMember => "Float number is not supported in enum",
            Violation::EnumValueOverflow => "Enum member value is out of range",
            Violation::InvalidRegistryMethod => "Invalid NativeModuleRegistry method",
            Violation::ReservedArgName => "Reserved argument name `it_` is not allowed",
            Violation::ReservedMethodName => "Reserved method name `emit` is not allowed",
            Violation::ReservedType => "Cannot use reserved type: Promise",
            Violation::NullablePrefix => "Nullable prefix is not allowed",
            Violation::TypeParameters => "Type parameters are not supported",
            Violation::InvalidPromise => "Invalid promise type",
            Violation::NullablePromise => "Promise type cannot be nullable",
            Violation::PromisePosition => "Promise type is only allowed as a method return type",
            Violation::DuplicateModuleName => "Duplicate module name",
            Violation::ModuleNameNotLiteral => "NativeModule name must be a string literal",
            Violation::ModuleNameMissing => "NativeModule name is required",
        };
        String::from_str(s)
    }
}

} // verus!
