use vstd::prelude::*;

use crate::convert::{
    diag, has_prefix, is_text, method_of, record_members, signal_of, try_into_method,
    try_into_nullable, try_into_props, try_into_signal, union_of,
};
use crate::diagnostics::{Diagnostic, Violation};
use crate::syntax::{
    AliasBody, AliasDecl, Argument, CallSyntax, Callee, EnumDecl, Heritage, ImportDecl,
    ImportSpec, Initializer, InterfaceDecl, Item, MemberSyntax, Span, TsType,
};
use crate::types::{
    EnumMember, EnumMemberValue, EnumTypeAnnotation, Method, ObjectTypeAnnotation, Param, Signal,
    Spec, TypeAnnotation,
};

verus! {

/// Collects the declarations of one source unit and the violations in it.
pub struct NativeModuleAnalyzer {
    pub diagnostics: Vec<Diagnostic>,
    /// Symbol of the imported module base type.
    pub mod_type_sym_id: Option<u32>,
    /// Symbol of the imported signal marker type.
    pub mod_signal_sym_id: Option<u32>,
    /// Symbol of the imported registry.
    pub mod_reg_sym_id: Option<u32>,
    /// Symbol of the package imported as a namespace.
    pub mod_ns_sym_id: Option<u32>,
    /// Module names bound to specification symbols; a later entry overrides an earlier one.
    pub mods: Vec<(u32, String)>,
    /// Declared types by symbol; a later entry overrides an earlier one.
    pub decls: Vec<(u32, TypeAnnotation)>,
    /// Specifications by symbol; a later entry overrides an earlier one.
    pub specs: Vec<(u32, Spec)>,
}

/// The entry of the latest binding of `k`.
pub open spec fn lookup<X>(s: Seq<(u32, X)>, k: u32) -> Option<X>
    decreases s.len(),
{
    if s.len() == 0 {
        None
    } else if s.last().0 == k {
        Some(s.last().1)
    } else {
        lookup(s.drop_last(), k)
    }
}

pub open spec fn method_triple(m: Method) -> (String, Seq<Param>, TypeAnnotation) {
    (m.name, m.params@, m.ret_type)
}

/// The first violation among the first `n` members of a specification.
pub open spec fn spec_error(ms: Seq<MemberSyntax>, outer: Span, marker: Option<u32>, n: int) -> Option<Diagnostic>
    decreases n,
{
    if n <= 0 {
        None
    } else {
        match spec_error(ms, outer, marker, n - 1) {
            Some(d) => Some(d),
            None => match ms[n - 1] {
                MemberSyntax::Method { key, computed, optional, params, return_type, span } => match method_of(
                    key,
                    computed,
                    optional,
                    params@,
                    return_type,
                    span,
                ) {
                    Ok(_) => None,
                    Err(d) => Some(d),
                },
                MemberSyntax::Property { key, type_annotation, span, .. } => match signal_of(key, type_annotation, span, marker) {
                    Ok(_) => None,
                    Err(d) => Some(d),
                },
                MemberSyntax::Other { .. } => Some(diag(Violation::InvalidSpec, outer)),
            },
        }
    }
}

/// The methods among the first `n` members, in order.
pub open spec fn spec_methods(ms: Seq<MemberSyntax>, n: int) -> Seq<(String, Seq<Param>, TypeAnnotation)>
    decreases n,
{
    if n <= 0 {
        Seq::empty()
    } else {
        match ms[n - 1] {
            MemberSyntax::Method { key, computed, optional, params, return_type, span } => match method_of(
                key,
                computed,
                optional,
                params@,
                return_type,
                span,
            ) {
                Ok(t) => spec_methods(ms, n - 1).push(t),
                Err(_) => spec_methods(ms, n - 1),
            },
            _ => spec_methods(ms, n - 1),
        }
    }
}

/// The signals among the first `n` members, in order.
pub open spec fn spec_signals(ms: Seq<MemberSyntax>, marker: Option<u32>, n: int) -> Seq<Signal>
    decreases n,
{
    if n <= 0 {
        Seq::empty()
    } else {
        match ms[n - 1] {
            MemberSyntax::Property { key, type_annotation, span, .. } => match signal_of(key, type_annotation, span, marker) {
                Ok(s) => spec_signals(ms, marker, n - 1).push(s),
                Err(_) => spec_signals(ms, marker, n - 1),
            },
            _ => spec_signals(ms, marker, n - 1),
        }
    }
}

/// A declared type name may not be `Promise` nor begin with `Nullable`.
pub open spec fn reserved_type_error(name: Seq<char>) -> Option<Violation> {
    if name == "Promise"@ {
        Some(Violation::ReservedType)
    } else if "Nullable"@.len() <= name.len() && name.subrange(0, "Nullable"@.len() as int) == "Nullable"@ {
        Some(Violation::NullablePrefix)
    } else {
        None
    }
}

/// The outcome of a record declared as an interface: its fields or a violation.
pub open spec fn interface_record(it: InterfaceDecl) -> Result<Seq<crate::types::Prop>, Diagnostic> {
    match reserved_type_error(it.name@) {
        Some(v) => Err(diag(v, it.span)),
        None => if it.extends@.len() > 0 {
            Err(diag(Violation::InvalidSpec, it.span))
        } else {
            record_members(it.members@, it.span, it.members@.len() as int)
        },
    }
}

/// What a type alias declares: a record's fields, another type, or a violation.
pub enum AliasOutcome {
    Record(Seq<crate::types::Prop>),
    Type(TypeAnnotation),
    Error(Diagnostic),
}

pub open spec fn alias_outcome(it: AliasDecl) -> AliasOutcome {
    match reserved_type_error(it.name@) {
        Some(v) => AliasOutcome::Error(diag(v, it.span)),
        None => if it.type_param_count > 0 {
            AliasOutcome::Error(diag(Violation::TypeParameters, it.span))
        } else {
            match it.body {
                AliasBody::Literal(ms) => match record_members(ms@, it.span, ms@.len() as int) {
                    Ok(ps) => AliasOutcome::Record(ps),
                    Err(d) => AliasOutcome::Error(d),
                },
                AliasBody::Union(arms) => match union_of(arms@) {
                    Ok(t) => AliasOutcome::Type(t),
                    Err(v) => AliasOutcome::Error(diag(v, it.span)),
                },
                AliasBody::Other => AliasOutcome::Error(diag(Violation::InvalidSpec, it.span)),
            }
        },
    }
}

/// The state of a scan over enum members.
pub struct EnumScan {
    /// `Some(true)` once a numeric member was seen, `Some(false)` once a string one was.
    pub numeric: Option<bool>,
    /// The value an unannotated numeric member takes next.
    pub next: int,
    pub members: Seq<EnumMember>,
    pub diagnostics: Seq<Diagnostic>,
    /// A mixed member ends the scan and the enum is dropped.
    pub mixed: bool,
}

pub open spec fn enum_step(s: EnumScan, m: crate::syntax::EnumMemberSyntax, span: Span) -> EnumScan {
    if s.mixed {
        s
    } else {
        match m.initializer {
            Some(Initializer::Number { value, fractional }) => if s.numeric == Some(false) {
                EnumScan { mixed: true, diagnostics: s.diagnostics.push(diag(Violation::MixedEnumMembers, span)), ..s }
            } else if fractional {
                EnumScan {
                    numeric: Some(true),
                    next: value + 1,
                    diagnostics: s.diagnostics.push(diag(Violation::FloatEnumMember, span)),
                    ..s
                }
            } else {
                EnumScan {
                    numeric: Some(true),
                    next: value + 1,
                    members: s.members.push(EnumMember { name: m.name, value: EnumMemberValue::Number(value) }),
                    ..s
                }
            },
            Some(Initializer::Str(v)) => if s.numeric == Some(true) {
                EnumScan { mixed: true, diagnostics: s.diagnostics.push(diag(Violation::MixedEnumMembers, span)), ..s }
            } else {
                EnumScan {
                    numeric: Some(false),
                    members: s.members.push(EnumMember { name: m.name, value: EnumMemberValue::String(v) }),
                    ..s
                }
            },
            Some(Initializer::Other) => EnumScan {
                diagnostics: s.diagnostics.push(diag(Violation::InvalidSpec, span)),
                ..s
            },
            None => if s.numeric == Some(false) {
                EnumScan { mixed: true, diagnostics: s.diagnostics.push(diag(Violation::MixedEnumMembers, span)), ..s }
            } else if s.next > usize::MAX {
                EnumScan { mixed: true, diagnostics: s.diagnostics.push(diag(Violation::EnumValueOverflow, span)), ..s }
            } else {
                EnumScan {
                    numeric: Some(true),
                    next: s.next + 1,
                    members: s.members.push(EnumMember { name: m.name, value: EnumMemberValue::Number(s.next as usize) }),
                    ..s
                }
            },
        }
    }
}

pub open spec fn enum_scan(ms: Seq<crate::syntax::EnumMemberSyntax>, span: Span, n: int) -> EnumScan
    decreases n,
{
    if n <= 0 {
        EnumScan { numeric: None, next: 0, members: Seq::empty(), diagnostics: Seq::empty(), mixed: false }
    } else {
        enum_step(enum_scan(ms, span, n - 1), ms[n - 1], span)
    }
}

/// A declared type as the analyzer holds it.
pub enum DeclView {
    Record(String, Seq<crate::types::Prop>),
    Enumeration(String, Seq<EnumMember>),
    Other(TypeAnnotation),
}

pub open spec fn decl_view(t: TypeAnnotation) -> DeclView {
    match t {
        TypeAnnotation::Object(o) => DeclView::Record(o.name, o.props@),
        TypeAnnotation::Enum(e) => DeclView::Enumeration(e.name, e.members@),
        _ => DeclView::Other(t),
    }
}

/// The declared types as the analyzer's view holds them.
pub open spec fn decls_view(d: Seq<(u32, TypeAnnotation)>) -> Seq<(u32, DeclView)> {
    d.map_values(|e: (u32, TypeAnnotation)| (e.0, decl_view(e.1)))
}

/// A collected specification: its name, methods and signals.
pub struct SpecView {
    pub name: String,
    pub methods: Seq<(String, Seq<Param>, TypeAnnotation)>,
    pub signals: Seq<Signal>,
}

pub open spec fn spec_view(s: Spec) -> SpecView {
    SpecView { name: s.name, methods: s.methods@.map_values(|m: Method| method_triple(m)), signals: s.signals@ }
}

/// The analyzer's state as plain values.
pub struct AnalyzerView {
    pub diagnostics: Seq<Diagnostic>,
    pub mod_type: Option<u32>,
    pub mod_signal: Option<u32>,
    pub mod_reg: Option<u32>,
    pub mod_ns: Option<u32>,
    pub mods: Seq<(u32, String)>,
    pub decls: Seq<(u32, DeclView)>,
    pub specs: Seq<(u32, SpecView)>,
}

impl View for NativeModuleAnalyzer {
    type V = AnalyzerView;

    open spec fn view(&self) -> AnalyzerView {
        AnalyzerView {
            diagnostics: self.diagnostics@,
            mod_type: self.mod_type_sym_id,
            mod_signal: self.mod_signal_sym_id,
            mod_reg: self.mod_reg_sym_id,
            mod_ns: self.mod_ns_sym_id,
            mods: self.mods@,
            decls: decls_view(self.decls@),
            specs: self.specs@.map_values(|e: (u32, Spec)| (e.0, spec_view(e.1))),
        }
    }
}

pub open spec fn import_step(v: AnalyzerView, sp: ImportSpec) -> AnalyzerView {
    match sp {
        ImportSpec::Named { imported, local } => match local {
            Some(sym) => if imported@ == "NativeModule"@ {
                AnalyzerView { mod_type: Some(sym), ..v }
            } else if imported@ == "NativeModuleRegistry"@ {
                AnalyzerView { mod_reg: Some(sym), ..v }
            } else if imported@ == "Signal"@ {
                AnalyzerView { mod_signal: Some(sym), ..v }
            } else {
                v
            },
            None => v,
        },
        ImportSpec::Namespace { binding } => AnalyzerView { mod_ns: Some(binding), ..v },
        ImportSpec::Default => v,
    }
}

pub open spec fn import_scan(v: AnalyzerView, sps: Seq<ImportSpec>, n: int) -> AnalyzerView
    decreases n,
{
    if n <= 0 {
        v
    } else {
        import_step(import_scan(v, sps, n - 1), sps[n - 1])
    }
}

/// Imports from the marker package bind the marker types' symbols.
pub open spec fn import_effect(v: AnalyzerView, it: ImportDecl) -> AnalyzerView {
    if it.source@ == "craby-modules"@ && it.specifiers is Some {
        import_scan(v, it.specifiers->0@, it.specifiers->0@.len() as int)
    } else {
        v
    }
}

/// The interface extends the module base type.
pub open spec fn extends_module(v: AnalyzerView, it: InterfaceDecl) -> bool {
    exists|i: int| 0 <= i < it.extends@.len() && match #[trigger] it.extends@[i] {
        Heritage::Ident(sym) => v.mod_type is Some && sym == v.mod_type,
        Heritage::Member { object, property } => property@ == "NativeModule"@ && v.mod_ns is Some && object == v.mod_ns,
        Heritage::Other => false,
    }
}

pub open spec fn interface_effect(v: AnalyzerView, it: InterfaceDecl) -> AnalyzerView {
    if it.declare {
        v
    } else if extends_module(v, it) {
        match spec_error(it.members@, it.span, v.mod_signal, it.members@.len() as int) {
            Some(d) => AnalyzerView { diagnostics: v.diagnostics.push(d), ..v },
            None => AnalyzerView {
                specs: v.specs.push((it.symbol, SpecView {
                    name: it.name,
                    methods: spec_methods(it.members@, it.members@.len() as int),
                    signals: spec_signals(it.members@, v.mod_signal, it.members@.len() as int),
                })),
                ..v
            },
        }
    } else {
        match interface_record(it) {
            Ok(ps) => AnalyzerView { decls: v.decls.push((it.symbol, DeclView::Record(it.name, ps))), ..v },
            Err(d) => AnalyzerView { diagnostics: v.diagnostics.push(d), ..v },
        }
    }
}

pub open spec fn alias_effect(v: AnalyzerView, it: AliasDecl) -> AnalyzerView {
    if it.declare {
        v
    } else {
        match alias_outcome(it) {
            AliasOutcome::Record(ps) => AnalyzerView { decls: v.decls.push((it.symbol, DeclView::Record(it.name, ps))), ..v },
            AliasOutcome::Type(t) => AnalyzerView { decls: v.decls.push((it.symbol, decl_view(t))), ..v },
            AliasOutcome::Error(d) => AnalyzerView { diagnostics: v.diagnostics.push(d), ..v },
        }
    }
}

pub open spec fn enum_effect(v: AnalyzerView, it: EnumDecl) -> AnalyzerView {
    if it.declare {
        v
    } else if reserved_type_error(it.name@) is Some {
        AnalyzerView { diagnostics: v.diagnostics.push(diag(reserved_type_error(it.name@)->0, it.span)), ..v }
    } else {
        let s = enum_scan(it.members@, it.span, it.members@.len() as int);
        AnalyzerView {
            diagnostics: v.diagnostics + s.diagnostics,
            decls: if s.mixed { v.decls } else { v.decls.push((it.symbol, DeclView::Enumeration(it.name, s.members))) },
            ..v
        }
    }
}

pub open spec fn is_get_name(p: Seq<char>) -> bool {
    p == "get"@ || p == "getEnforcing"@
}

/// The specification symbol named by the registry call's type argument.
pub open spec fn spec_id_of(c: CallSyntax) -> Result<Option<u32>, Violation> {
    match c.type_args {
        None => Err(Violation::MissingSpecGeneric),
        Some(v) => if v@.len() == 0 {
            Err(Violation::MissingSpecGeneric)
        } else if v@.len() != 1 {
            Err(Violation::SpecGenericCount)
        } else {
            match v@[0] {
                TsType::Reference { symbol, .. } => Ok(symbol),
                TsType::Qualified => Err(Violation::InvalidSpecReference),
                _ => Err(Violation::SpecGenericNotReference),
            }
        },
    }
}

/// The module name the registry call binds: a string literal not bound before.
pub open spec fn mod_name_of(mods: Seq<(u32, String)>, c: CallSyntax) -> Result<String, Diagnostic> {
    match c.first_arg {
        Some(Argument::Str { value, span }) => if exists|i: int| 0 <= i < mods.len() && (#[trigger] mods[i]).1@ == value@ {
            Err(diag(Violation::DuplicateModuleName, span))
        } else {
            Ok(value)
        },
        Some(Argument::Other) => Err(diag(Violation::ModuleNameNotLiteral, c.span)),
        None => Err(diag(Violation::ModuleNameMissing, c.span)),
    }
}

pub open spec fn bind_effect(v: AnalyzerView, c: CallSyntax) -> AnalyzerView {
    match spec_id_of(c) {
        Err(x) => AnalyzerView { diagnostics: v.diagnostics.push(diag(x, c.span)), ..v },
        Ok(None) => v,
        Ok(Some(id)) => match mod_name_of(v.mods, c) {
            Err(d) => AnalyzerView { diagnostics: v.diagnostics.push(d), ..v },
            Ok(name) => AnalyzerView { mods: v.mods.push((id, name)), ..v },
        },
    }
}

pub open spec fn call_effect(v: AnalyzerView, c: CallSyntax) -> AnalyzerView {
    match c.callee {
        Callee::Member { object, property, property_span } => {
            let is_reg = v.mod_reg is Some && object == v.mod_reg;
            if !is_get_name(property@) {
                if is_reg {
                    AnalyzerView { diagnostics: v.diagnostics.push(diag(Violation::InvalidRegistryMethod, property_span)), ..v }
                } else {
                    v
                }
            } else if is_reg {
                bind_effect(v, c)
            } else {
                v
            }
        },
        Callee::NestedMember { root, property } => if v.mod_ns is Some && root == v.mod_ns && is_get_name(property@) {
            bind_effect(v, c)
        } else {
            v
        },
        Callee::Other => v,
    }
}

pub open spec fn item_effect(v: AnalyzerView, it: Item) -> AnalyzerView {
    match it {
        Item::Import(d) => import_effect(v, d),
        Item::Interface(d) => interface_effect(v, d),
        Item::Alias(d) => alias_effect(v, d),
        Item::Enum(d) => enum_effect(v, d),
        Item::Call(c) => call_effect(v, c),
    }
}

/// The analyzer's state after visiting the first `n` items.
pub open spec fn items_effect(v: AnalyzerView, items: Seq<Item>, n: int) -> AnalyzerView
    decreases n,
{
    if n <= 0 {
        v
    } else {
        item_effect(items_effect(v, items, n - 1), items[n - 1])
    }
}

proof fn lemma_spec_error_stop(ms: Seq<MemberSyntax>, outer: Span, marker: Option<u32>, k: int, n: int)
    requires
        1 <= k <= n,
        spec_error(ms, outer, marker, k) is Some,
    ensures
        spec_error(ms, outer, marker, n) == spec_error(ms, outer, marker, k),
    decreases n - k,
{
    if k < n {
        lemma_spec_error_stop(ms, outer, marker, k, n - 1);
    }
}

fn try_assert_reserved_type(name: &String) -> (r: Option<Violation>)
    ensures
        r == reserved_type_error(name@),
{
    if is_text(name, "Promise") {
        Some(Violation::ReservedType)
    } else if has_prefix(name, "Nullable") {
        Some(Violation::NullablePrefix)
    } else {
        None
    }
}

impl NativeModuleAnalyzer {
    pub fn new() -> (r: Self)
        ensures
            r@ == (AnalyzerView {
                diagnostics: Seq::empty(),
                mod_type: None,
                mod_signal: None,
                mod_reg: None,
                mod_ns: None,
                mods: Seq::empty(),
                decls: Seq::empty(),
                specs: Seq::empty(),
            }),
    {
        let r = NativeModuleAnalyzer {
            diagnostics: Vec::new(),
            mod_type_sym_id: None,
            mod_signal_sym_id: None,
            mod_reg_sym_id: None,
            mod_ns_sym_id: None,
            mods: Vec::new(),
            decls: Vec::new(),
            specs: Vec::new(),
        };
        proof {
            assert(decls_view(r.decls@) =~= Seq::empty());
            assert(r@.decls =~= Seq::empty());
            assert(r@.specs =~= Seq::empty());
        }
        r
    }

    /// Records a violation.
    fn collect_error(&mut self, d: Diagnostic)
        ensures
            final(self)@ == (AnalyzerView { diagnostics: old(self)@.diagnostics.push(d), ..old(self)@ }),
    {
        self.diagnostics.push(d);
    }

    fn push_decl(&mut self, sym: u32, t: TypeAnnotation)
        ensures
            final(self)@ == (AnalyzerView { decls: old(self)@.decls.push((sym, decl_view(t))), ..old(self)@ }),
    {
        let ghost d0 = self.decls@;
        self.decls.push((sym, t));
        proof {
            assert(decls_view(self.decls@) =~= decls_view(d0).push((sym, decl_view(t))));
        }
    }

    /// Collects a module specification: its methods and signals.
    fn collect_spec(&mut self, it: &InterfaceDecl)
        ensures
            final(self)@ == match spec_error(it.members@, it.span, old(self)@.mod_signal, it.members@.len() as int) {
                Some(d) => AnalyzerView { diagnostics: old(self)@.diagnostics.push(d), ..old(self)@ },
                None => AnalyzerView {
                    specs: old(self)@.specs.push((it.symbol, SpecView {
                        name: it.name,
                        methods: spec_methods(it.members@, it.members@.len() as int),
                        signals: spec_signals(it.members@, old(self)@.mod_signal, it.members@.len() as int),
                    })),
                    ..old(self)@
                },
            },
    {
        let ghost ms = it.members@;
        let ghost n = ms.len() as int;
        let marker = self.mod_signal_sym_id;
        let mut methods: Vec<Method> = Vec::new();
        let mut signals: Vec<Signal> = Vec::new();
        let mut k: usize = 0;
        while k < it.members.len()
            invariant
                self@ == old(self)@,
                marker == old(self)@.mod_signal,
                ms == it.members@,
                n == ms.len(),
                k <= ms.len(),
                spec_error(ms, it.span, marker, k as int) is None,
                methods@.map_values(|m: Method| method_triple(m)) == spec_methods(ms, k as int),
                signals@ == spec_signals(ms, marker, k as int),
            decreases ms.len() - k,
        {
            let ghost m0 = methods@;
            match &it.members[k] {
                MemberSyntax::Method { key, computed, optional, params, return_type, span } => {
                    match try_into_method(key, *computed, *optional, params, return_type, *span) {
                        Ok(m) => {
                            methods.push(m);
                            proof {
                                assert(methods@.map_values(|m: Method| method_triple(m)) =~= m0.map_values(
                                    |m: Method| method_triple(m),
                                ).push(method_triple(methods@.last())));
                            }
                        },
                        Err(d) => {
                            proof {
                                lemma_spec_error_stop(ms, it.span, marker, k as int + 1, n);
                            }
                            self.collect_error(d);
                            return;
                        },
                    }
                },
                MemberSyntax::Property { key, type_annotation, span, .. } => {
                    match try_into_signal(key, type_annotation, *span, marker) {
                        Ok(sig) => signals.push(sig),
                        Err(d) => {
                            proof {
                                lemma_spec_error_stop(ms, it.span, marker, k as int + 1, n);
                            }
                            self.collect_error(d);
                            return;
                        },
                    }
                },
                MemberSyntax::Other { .. } => {
                    proof {
                        lemma_spec_error_stop(ms, it.span, marker, k as int + 1, n);
                    }
                    self.collect_error(Diagnostic { violation: Violation::InvalidSpec, span: it.span });
                    return;
                },
            }
            k += 1;
        }
        let ghost s0 = self.specs@;
        let spec = Spec { name: it.name.clone(), methods, signals };
        self.specs.push((it.symbol, spec));
        proof {
            assert(self.specs@.map_values(|e: (u32, Spec)| (e.0, spec_view(e.1))) =~= s0.map_values(
                |e: (u32, Spec)| (e.0, spec_view(e.1)),
            ).push((it.symbol, spec_view(self.specs@.last().1))));
        }
    }

    /// Collects a record declared as an interface.
    fn collect_interface_type(&mut self, it: &InterfaceDecl)
        ensures
            final(self)@ == match interface_record(*it) {
                Ok(ps) => AnalyzerView { decls: old(self)@.decls.push((it.symbol, DeclView::Record(it.name, ps))), ..old(self)@ },
                Err(d) => AnalyzerView { diagnostics: old(self)@.diagnostics.push(d), ..old(self)@ },
            },
    {
        if let Some(v) = try_assert_reserved_type(&it.name) {
            self.collect_error(Diagnostic { violation: v, span: it.span });
            return;
        }
        if it.extends.len() > 0 {
            self.collect_error(Diagnostic { violation: Violation::InvalidSpec, span: it.span });
            return;
        }
        match try_into_props(&it.members, it.span) {
            Ok(props) => {
                let t = TypeAnnotation::Object(ObjectTypeAnnotation { name: it.name.clone(), props });
                self.push_decl(it.symbol, t);
            },
            Err(d) => self.collect_error(d),
        }
    }

    /// Collects a type alias: a record literal or a nullable type.
    fn collect_alias_type(&mut self, it: &AliasDecl)
        ensures
            final(self)@ == match alias_outcome(*it) {
                AliasOutcome::Record(ps) => AnalyzerView { decls: old(self)@.decls.push((it.symbol, DeclView::Record(it.name, ps))), ..old(self)@ },
                AliasOutcome::Type(t) => AnalyzerView { decls: old(self)@.decls.push((it.symbol, decl_view(t))), ..old(self)@ },
                AliasOutcome::Error(d) => AnalyzerView { diagnostics: old(self)@.diagnostics.push(d), ..old(self)@ },
            },
    {
        if let Some(v) = try_assert_reserved_type(&it.name) {
            self.collect_error(Diagnostic { violation: v, span: it.span });
            return;
        }
        if it.type_param_count > 0 {
            self.collect_error(Diagnostic { violation: Violation::TypeParameters, span: it.span });
            return;
        }
        match &it.body {
            AliasBody::Literal(ms) => match try_into_props(ms, it.span) {
                Ok(props) => {
                    let t = TypeAnnotation::Object(ObjectTypeAnnotation { name: it.name.clone(), props });
                    self.push_decl(it.symbol, t);
                },
                Err(d) => self.collect_error(d),
            },
            AliasBody::Union(arms) => match try_into_nullable(arms) {
                Ok(t) => self.push_decl(it.symbol, t),
                Err(v) => self.collect_error(Diagnostic { violation: v, span: it.span }),
            },
            AliasBody::Other => self.collect_error(Diagnostic { violation: Violation::InvalidSpec, span: it.span }),
        }
    }
}

impl NativeModuleAnalyzer {
    /// Collects an enum whose members are all numeric or all strings; an
    /// unannotated numeric member takes the previous member's value plus one.
    fn collect_enum_type(&mut self, it: &EnumDecl)
        ensures
            ({
                let sc = enum_scan(it.members@, it.span, it.members@.len() as int);
                final(self)@ == AnalyzerView {
                    diagnostics: old(self)@.diagnostics + sc.diagnostics,
                    decls: if sc.mixed { old(self)@.decls } else { old(self)@.decls.push((it.symbol, DeclView::Enumeration(it.name, sc.members))) },
                    ..old(self)@
                }
            }),
    {
        let ghost ms = it.members@;
        let ghost d0 = self.diagnostics@;
        let mut numeric: Option<bool> = None;
        let mut next: u128 = 0;
        let mut members: Vec<EnumMember> = Vec::new();
        let mut k: usize = 0;
        while k < it.members.len()
            invariant
                ms == it.members@,
                d0 == old(self)@.diagnostics,
                k <= ms.len(),
                next <= usize::MAX as u128 + 1,
                ({
                    let sc = enum_scan(ms, it.span, k as int);
                    &&& !sc.mixed
                    &&& sc.numeric == numeric
                    &&& sc.next == next as int
                    &&& sc.members == members@
                    &&& self@ == AnalyzerView { diagnostics: d0 + sc.diagnostics, ..old(self)@ }
                }),
            decreases ms.len() - k,
        {
            let ghost sc0 = enum_scan(ms, it.span, k as int);
            let m = &it.members[k];
            assert(enum_scan(ms, it.span, k as int + 1) == enum_step(sc0, ms[k as int], it.span));
            match &m.initializer {
                Some(Initializer::Number { value, fractional }) => {
                    if numeric == Some(false) {
                        self.collect_error(Diagnostic { violation: Violation::MixedEnumMembers, span: it.span });
                        proof {
                            lemma_enum_mixed_stays(ms, it.span, k as int + 1, ms.len() as int);
                            assert(self@.diagnostics =~= d0 + enum_scan(ms, it.span, k as int + 1).diagnostics);
                        }
                        return;
                    }
                    numeric = Some(true);
                    next = *value as u128 + 1;
                    if *fractional {
                        self.collect_error(Diagnostic { violation: Violation::FloatEnumMember, span: it.span });
                        proof {
                            assert(self@.diagnostics =~= d0 + enum_scan(ms, it.span, k as int + 1).diagnostics);
                        }
                    } else {
                        members.push(EnumMember { name: m.name.clone(), value: EnumMemberValue::Number(*value) });
                    }
                },
                Some(Initializer::Str(v)) => {
                    if numeric == Some(true) {
                        self.collect_error(Diagnostic { violation: Violation::MixedEnumMembers, span: it.span });
                        proof {
                            lemma_enum_mixed_stays(ms, it.span, k as int + 1, ms.len() as int);
                            assert(self@.diagnostics =~= d0 + enum_scan(ms, it.span, k as int + 1).diagnostics);
                        }
                        return;
                    }
                    numeric = Some(false);
                    members.push(EnumMember { name: m.name.clone(), value: EnumMemberValue::String(v.clone()) });
                },
                Some(Initializer::Other) => {
                    self.collect_error(Diagnostic { violation: Violation::InvalidSpec, span: it.span });
                    proof {
                        assert(self@.diagnostics =~= d0 + enum_scan(ms, it.span, k as int + 1).diagnostics);
                    }
                },
                None => {
                    if numeric == Some(false) {
                        self.collect_error(Diagnostic { violation: Violation::MixedEnumMembers, span: it.span });
                        proof {
                            lemma_enum_mixed_stays(ms, it.span, k as int + 1, ms.len() as int);
                            assert(self@.diagnostics =~= d0 + enum_scan(ms, it.span, k as int + 1).diagnostics);
                        }
                        return;
                    }
                    if next > usize::MAX as u128 {
                        self.collect_error(Diagnostic { violation: Violation::EnumValueOverflow, span: it.span });
                        proof {
                            lemma_enum_mixed_stays(ms, it.span, k as int + 1, ms.len() as int);
                            assert(self@.diagnostics =~= d0 + enum_scan(ms, it.span, k as int + 1).diagnostics);
                        }
                        return;
                    }
                    numeric = Some(true);
                    members.push(EnumMember { name: m.name.clone(), value: EnumMemberValue::Number(next as usize) });
                    next = next + 1;
                },
            }
            k += 1;
        }
        proof {
            assert(d0 + enum_scan(ms, it.span, ms.len() as int).diagnostics == self@.diagnostics);
        }
        let t = TypeAnnotation::Enum(EnumTypeAnnotation { name: it.name.clone(), members });
        self.push_decl(it.symbol, t);
    }

    /// Binds the marker types' symbols from imports of the marker package.
    pub fn visit_import_declaration(&mut self, it: &ImportDecl)
        ensures
            final(self)@ == import_effect(old(self)@, *it),
    {
        if !is_text(&it.source, "craby-modules") {
            return;
        }
        if let Some(sps) = &it.specifiers {
            let mut k: usize = 0;
            while k < sps.len()
                invariant
                    k <= sps@.len(),
                    it.source@ == "craby-modules"@,
                    it.specifiers == Some(*sps),
                    self@ == import_scan(old(self)@, sps@, k as int),
                decreases sps@.len() - k,
            {
                match &sps[k] {
                    ImportSpec::Named { imported, local } => {
                        if let Some(sym) = local {
                            if is_text(imported, "NativeModule") {
                                self.mod_type_sym_id = Some(*sym);
                            } else if is_text(imported, "NativeModuleRegistry") {
                                self.mod_reg_sym_id = Some(*sym);
                            } else if is_text(imported, "Signal") {
                                self.mod_signal_sym_id = Some(*sym);
                            }
                        }
                    },
                    ImportSpec::Namespace { binding } => {
                        self.mod_ns_sym_id = Some(*binding);
                    },
                    ImportSpec::Default => {},
                }
                k += 1;
            }
        }
    }

    /// The interface extends the module base type, directly or through the
    /// package namespace.
    fn is_spec(&self, it: &InterfaceDecl) -> (r: bool)
        ensures
            r == extends_module(self@, *it),
    {
        let mut k: usize = 0;
        while k < it.extends.len()
            invariant
                k <= it.extends@.len(),
                forall|i: int| 0 <= i < k ==> !match #[trigger] it.extends@[i] {
                    Heritage::Ident(sym) => self@.mod_type is Some && sym == self@.mod_type,
                    Heritage::Member { object, property } => property@ == "NativeModule"@ && self@.mod_ns is Some && object == self@.mod_ns,
                    Heritage::Other => false,
                },
            decreases it.extends@.len() - k,
        {
            let hit = match &it.extends[k] {
                Heritage::Ident(sym) => self.mod_type_sym_id.is_some() && *sym == self.mod_type_sym_id,
                Heritage::Member { object, property } => is_text(property, "NativeModule") && self.mod_ns_sym_id.is_some() && *object == self.mod_ns_sym_id,
                Heritage::Other => false,
            };
            if hit {
                return true;
            }
            k += 1;
        }
        false
    }

    pub fn visit_ts_interface_declaration(&mut self, it: &InterfaceDecl)
        ensures
            final(self)@ == interface_effect(old(self)@, *it),
    {
        if it.declare {
            return;
        }
        if self.is_spec(it) {
            self.collect_spec(it);
        } else {
            self.collect_interface_type(it);
        }
    }

    pub fn visit_ts_type_alias_declaration(&mut self, it: &AliasDecl)
        ensures
            final(self)@ == alias_effect(old(self)@, *it),
    {
        if it.declare {
            return;
        }
        self.collect_alias_type(it);
    }

    pub fn visit_ts_enum_declaration(&mut self, it: &EnumDecl)
        ensures
            final(self)@ == enum_effect(old(self)@, *it),
    {
        if it.declare {
            return;
        }
        if let Some(v) = try_assert_reserved_type(&it.name) {
            self.collect_error(Diagnostic { violation: v, span: it.span });
            return;
        }
        self.collect_enum_type(it);
    }
}

proof fn lemma_enum_mixed_stays(ms: Seq<crate::syntax::EnumMemberSyntax>, span: Span, k: int, n: int)
    requires
        0 <= k <= n,
        enum_scan(ms, span, k).mixed,
    ensures
        enum_scan(ms, span, n) == enum_scan(ms, span, k),
    decreases n - k,
{
    if k < n {
        lemma_enum_mixed_stays(ms, span, k, n - 1);
    }
}

fn is_get(p: &String) -> (r: bool)
    ensures
        r == is_get_name(p@),
{
    is_text(p, "get") || is_text(p, "getEnforcing")
}

impl NativeModuleAnalyzer {
    /// The specification symbol of a registry call, reporting a malformed type argument.
    fn as_spec_id(&mut self, it: &CallSyntax) -> (r: Option<u32>)
        ensures
            match spec_id_of(*it) {
                Err(x) => r is None && final(self)@ == AnalyzerView { diagnostics: old(self)@.diagnostics.push(diag(x, it.span)), ..old(self)@ },
                Ok(id) => r == id && final(self)@ == old(self)@,
            },
    {
        let args = match &it.type_args {
            None => {
                self.collect_error(Diagnostic { violation: Violation::MissingSpecGeneric, span: it.span });
                return None;
            },
            Some(a) => a,
        };
        if args.len() == 0 {
            self.collect_error(Diagnostic { violation: Violation::MissingSpecGeneric, span: it.span });
            return None;
        }
        if args.len() != 1 {
            self.collect_error(Diagnostic { violation: Violation::SpecGenericCount, span: it.span });
            return None;
        }
        match &args[0] {
            TsType::Reference { symbol, .. } => *symbol,
            TsType::Qualified => {
                self.collect_error(Diagnostic { violation: Violation::InvalidSpecReference, span: it.span });
                None
            },
            _ => {
                self.collect_error(Diagnostic { violation: Violation::SpecGenericNotReference, span: it.span });
                None
            },
        }
    }

    /// The module name of a registry call, reporting a missing, non-literal or duplicate one.
    fn as_mod_name(&mut self, it: &CallSyntax) -> (r: Option<String>)
        ensures
            match mod_name_of(old(self)@.mods, *it) {
                Err(d) => r is None && final(self)@ == AnalyzerView { diagnostics: old(self)@.diagnostics.push(d), ..old(self)@ },
                Ok(name) => r == Some(name) && final(self)@ == old(self)@,
            },
    {
        match &it.first_arg {
            Some(Argument::Str { value, span }) => {
                let mut k: usize = 0;
                while k < self.mods.len()
                    invariant
                        k <= self.mods@.len(),
                        self@ == old(self)@,
                        it.first_arg == Some(Argument::Str { value: *value, span: *span }),
                        forall|i: int| 0 <= i < k ==> (#[trigger] self.mods@[i]).1@ != value@,
                    decreases self.mods@.len() - k,
                {
                    if self.mods[k].1 == *value {
                        assert((self.mods@[k as int]).1@ == value@);
                        assert(old(self)@.mods[k as int].1@ == value@);

                        self.collect_error(Diagnostic { violation: Violation::DuplicateModuleName, span: *span });
                        return None;
                    }
                    k += 1;
                }
                Some(value.clone())
            },
            Some(Argument::Other) => {
                self.collect_error(Diagnostic { violation: Violation::ModuleNameNotLiteral, span: it.span });
                None
            },
            None => {
                self.collect_error(Diagnostic { violation: Violation::ModuleNameMissing, span: it.span });
                None
            },
        }
    }

    fn bind_mod(&mut self, it: &CallSyntax)
        ensures
            final(self)@ == bind_effect(old(self)@, *it),
    {
        let spec_id = match self.as_spec_id(it) {
            Some(id) => id,
            None => {
                return;
            },
        };
        if let Some(name) = self.as_mod_name(it) {
            self.mods.push((spec_id, name));
        }
    }

    /// Binds a specification to a module name from a registry call.
    pub fn visit_call_expression(&mut self, it: &CallSyntax)
        ensures
            final(self)@ == call_effect(old(self)@, *it),
    {
        match &it.callee {
            Callee::Member { object, property, property_span } => {
                let is_reg = self.mod_reg_sym_id.is_some() && *object == self.mod_reg_sym_id;
                if !is_get(property) {
                    if is_reg {
                        self.collect_error(Diagnostic { violation: Violation::InvalidRegistryMethod, span: *property_span });
                    }
                } else if is_reg {
                    self.bind_mod(it);
                }
            },
            Callee::NestedMember { root, property } => {
                if self.mod_ns_sym_id.is_some() && *root == self.mod_ns_sym_id && is_get(property) {
                    self.bind_mod(it);
                }
            },
            Callee::Other => {},
        }
    }

    /// Visits the items of a source unit in order.
    pub fn visit_program(&mut self, items: &Vec<Item>)
        ensures
            final(self)@ == items_effect(old(self)@, items@, items@.len() as int),
    {
        let mut k: usize = 0;
        while k < items.len()
            invariant
                k <= items@.len(),
                self@ == items_effect(old(self)@, items@, k as int),
            decreases items@.len() - k,
        {
            match &items[k] {
                Item::Import(d) => self.visit_import_declaration(d),
                Item::Interface(d) => self.visit_ts_interface_declaration(d),
                Item::Alias(d) => self.visit_ts_type_alias_declaration(d),
                Item::Enum(d) => self.visit_ts_enum_declaration(d),
                Item::Call(c) => self.visit_call_expression(c),
            }
            k += 1;
        }
    }
}

} // verus!
