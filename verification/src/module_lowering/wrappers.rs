//! Wrapper functions: exports in the boundary's form, and imports in the
//! module's form.

use vstd::prelude::*;

use crate::encode::SigView;
use crate::ident::kebab_case;
use crate::instr::{Instr, ValType};
use crate::ir::{IrField, IrFunction, IrFunctionParam, IrModule, ResolvedType};
use crate::layout::{FieldLayout, LayoutOwner, VariantShape, STRING_LEN_OFFSET, STRING_PTR_OFFSET};
use crate::lower::block::{BodyView, FunctionBody};
use crate::lower::context::{InstructionSink, SinkView};
use crate::module::{BuilderView, ModuleBuilder};
use crate::module_lowering::cabi::{
    build_cabi_field_value, emit_cabi_materialise, flatten_canonical_abi, CabiFieldValue,
    CabiStructFieldOp, Cursor,
};
use crate::module_lowering::error::{not_supported, to_index, ModuleLowerError};
use crate::module_lowering::nesting::find_nesting_limit;
use crate::module_lowering::signature::{
    declared_param_type, lower_params_with_self, lower_results, passes_as_two_words,
};
use crate::types::{TypeMapError, UnsupportedKind};

verus! {

// ── exports ──────────────────────────────────────────────────────────

/// First flat slot and number of flat slots of a parameter.
pub type Span = (u32, u32);

/// The flat value types of the parameters and the span of each, from
/// parameter `i` on, appended to `types` and `spans`.
pub open spec fn flat_params(
    params: Seq<IrFunctionParam>,
    i: int,
    function: String,
    m: IrModule,
    types: Seq<ValType>,
    spans: Seq<Span>,
) -> Result<(Seq<ValType>, Seq<Span>), ModuleLowerError>
    decreases params.len() - i,
{
    if i < 0 || i >= params.len() {
        Ok((types, spans))
    } else {
        match crate::module_lowering::signature::declared_type(params, i, function, None) {
            Err(x) => Err(x),
            Ok(ty) => match crate::module_lowering::error::checked_index(types.len() as int) {
                Err(x) => Err(x),
                Ok(start) => match crate::module_lowering::cabi::flat(ty, m, crate::module_lowering::nesting::nesting_limit(ty, m) as nat) {
                    Err(x) => Err(x),
                    Ok(s) => match crate::module_lowering::error::checked_index(s.len() as int) {
                        Err(x) => Err(x),
                        Ok(count) => flat_params(
                            params,
                            i + 1,
                            function,
                            m,
                            types + s,
                            spans.push((start, count)),
                        ),
                    },
                },
            },
        }
    }
}

/// The plans of the parameters, from parameter `i` on, appended to `out`,
/// and the scratch locals they take.
pub open spec fn param_plans(
    params: Seq<IrFunctionParam>,
    i: int,
    function: String,
    spans: Seq<Span>,
    base: u32,
    m: IrModule,
    scratch: u32,
    out: Seq<CabiFieldValue>,
) -> Result<(Seq<CabiFieldValue>, u32), ModuleLowerError>
    decreases params.len() - i,
{
    if i < 0 || i >= params.len() {
        Ok((out, scratch))
    } else {
        match crate::module_lowering::signature::declared_type(params, i, function, None) {
            Err(x) => Err(x),
            Ok(ty) => if i >= spans.len() {
                Err(ModuleLowerError::TooManyFunctions)
            } else {
                match crate::module_lowering::cabi::value_plan(
                    ty,
                    Cursor { slot: spans[i].0, scratch },
                    base,
                    m,
                    crate::module_lowering::nesting::nesting_limit(ty, m) as nat,
                ) {
                    Err(x) => Err(x),
                    Ok((value, c)) => {
                        let consumed = taken(spans[i].0, c.slot);
                        if consumed != spans[i].1 {
                            Err(
                                crate::module_lowering::error::unsupported(
                                    UnsupportedKind::SlotMismatch {
                                        param: params[i].name,
                                        ty,
                                        consumed,
                                        expected: spans[i].1,
                                    },
                                ),
                            )
                        } else {
                            param_plans(
                                params,
                                i + 1,
                                function,
                                spans,
                                base,
                                m,
                                c.scratch,
                                out.push(value),
                            )
                        }
                    },
                }
            },
        }
    }
}

/// How many slots lie between two cursor positions.
pub open spec fn taken(from: u32, to: u32) -> u32 {
    if to < from {
        0
    } else {
        (to - from) as u32
    }
}

/// The code that builds the parameters in memory, from parameter `i` on.
pub open spec fn build_code(plans: Seq<CabiFieldValue>, i: int, alloc: u32, s: SinkView) -> SinkView
    decreases plans.len() - i,
{
    if i < 0 || i >= plans.len() {
        s
    } else {
        build_code(
            plans,
            i + 1,
            alloc,
            match plans[i] {
                CabiFieldValue::DirectSlot { .. } => s,
                CabiFieldValue::MaterialisedScratch { scratch, ops } => crate::module_lowering::cabi::materialised(
                    *ops,
                    scratch,
                    alloc,
                    s,
                ),
            },
        )
    }
}

/// The code that pushes the parameters, from parameter `i` on.
pub open spec fn push_code(plans: Seq<CabiFieldValue>, i: int, s: SinkView) -> SinkView
    decreases plans.len() - i,
{
    if i < 0 || i >= plans.len() {
        s
    } else {
        push_code(
            plans,
            i + 1,
            s.emit(
                Instr::LocalGet(
                    match plans[i] {
                        CabiFieldValue::DirectSlot { slot, .. } => slot,
                        CabiFieldValue::MaterialisedScratch { scratch, .. } => scratch,
                    },
                ),
            ),
        )
    }
}

/// The body of an export wrapper.
pub open spec fn wrapper_body(plans: Seq<CabiFieldValue>, scratch: u32, alloc: u32, inner: u32) -> BodyView {
    crate::module::word_body(
        scratch,
        push_code(plans, 0, build_code(plans, 0, alloc, crate::module::nothing())).emit(
            Instr::Call(inner),
        ).emit(Instr::End),
    )
}

/// The signature and the body of the export wrapper of a function.
pub open spec fn wrapper_of(f: IrFunction, inner: u32, alloc: u32, m: IrModule) -> Result<
    (SigView, BodyView),
    ModuleLowerError,
> {
    match flat_params(f.params@, 0, f.name, m, Seq::empty(), Seq::empty()) {
        Err(x) => Err(x),
        Ok((types, spans)) => match crate::module_lowering::signature::results_of(f) {
            Err(x) => Err(x),
            Ok(results) => match crate::module_lowering::error::checked_index(types.len() as int) {
                Err(x) => Err(x),
                Ok(base) => match param_plans(
                    f.params@,
                    0,
                    f.name,
                    spans,
                    base,
                    m,
                    0,
                    Seq::empty(),
                ) {
                    Err(x) => Err(x),
                    Ok((plans, scratch)) => Ok(
                        (
                            SigView { params: types, results },
                            wrapper_body(plans, scratch, alloc, inner),
                        ),
                    ),
                },
            },
        },
    }
}

/// The builder with the export wrapper of a function, and the wrapper's
/// index.
pub open spec fn with_wrapper(f: IrFunction, inner: u32, b: BuilderView, m: IrModule) -> Result<
    (BuilderView, u32),
    ModuleLowerError,
> {
    let b1 = b.with_bump();
    match wrapper_of(f, inner, b1.bump_allocator->0, m) {
        Err(x) => Err(x),
        Ok((sig, body)) => Ok(
            (
                b1.with_helper(sig, body, crate::ident::kebab(f.name@) + "::cabi-wrapper"@),
                b1.next_function(),
            ),
        ),
    }
}

/// `r` and the builder after it are what `s` says.
pub open spec fn declared(
    r: Result<u32, ModuleLowerError>,
    after: BuilderView,
    s: Result<(BuilderView, u32), ModuleLowerError>,
) -> bool {
    match r {
        Ok(idx) => s == Ok::<(BuilderView, u32), ModuleLowerError>((after, idx)),
        Err(x) => s == Err::<(BuilderView, u32), ModuleLowerError>(x),
    }
}

fn append_types(out: &mut Vec<ValType>, more: Vec<ValType>)
    ensures
        final(out)@ == old(out)@ + more@,
{
    let mut rest: Vec<ValType> = more;
    out.append(&mut rest);
}

fn flatten_params(f: &IrFunction, module: &IrModule) -> (r: Result<
    (Vec<ValType>, Vec<Span>),
    ModuleLowerError,
>)
    ensures
        match r {
            Ok((types, spans)) => flat_params(
                f.params@,
                0,
                f.name,
                *module,
                Seq::empty(),
                Seq::empty(),
            ) == Ok::<(Seq<ValType>, Seq<Span>), ModuleLowerError>((types@, spans@)),
            Err(x) => flat_params(f.params@, 0, f.name, *module, Seq::empty(), Seq::empty())
                == Err::<(Seq<ValType>, Seq<Span>), ModuleLowerError>(x),
        },
{
    let mut types: Vec<ValType> = Vec::new();
    let mut spans: Vec<Span> = Vec::new();
    let mut i: usize = 0;
    while i < f.params.len()
        invariant
            i <= f.params@.len(),
            flat_params(f.params@, 0, f.name, *module, Seq::empty(), Seq::empty()) == flat_params(
                f.params@,
                i as int,
                f.name,
                *module,
                types@,
                spans@,
            ),
        decreases f.params@.len() - i,
    {
        let ty = declared_param_type(&f.params, i, &f.name, None)?;
        let start: u32 = to_index(types.len())?;
        let s = flatten_canonical_abi(ty, module, find_nesting_limit(ty, module))?;
        let count: u32 = to_index(s.len())?;
        append_types(&mut types, s);
        spans.push((start, count));
        i = i + 1;
    }
    Ok((types, spans))
}

fn plan_params(f: &IrFunction, spans: &Vec<Span>, base: u32, module: &IrModule) -> (r: Result<
    (Vec<CabiFieldValue>, u32),
    ModuleLowerError,
>)
    ensures
        match r {
            Ok((plans, scratch)) => param_plans(
                f.params@,
                0,
                f.name,
                spans@,
                base,
                *module,
                0,
                Seq::empty(),
            ) == Ok::<(Seq<CabiFieldValue>, u32), ModuleLowerError>((plans@, scratch)),
            Err(x) => param_plans(f.params@, 0, f.name, spans@, base, *module, 0, Seq::empty())
                == Err::<(Seq<CabiFieldValue>, u32), ModuleLowerError>(x),
        },
{
    let mut plans: Vec<CabiFieldValue> = Vec::new();
    let mut scratch: u32 = 0;
    let mut i: usize = 0;
    while i < f.params.len()
        invariant
            i <= f.params@.len(),
            param_plans(f.params@, 0, f.name, spans@, base, *module, 0, Seq::empty())
                == param_plans(
                f.params@,
                i as int,
                f.name,
                spans@,
                base,
                *module,
                scratch,
                plans@,
            ),
        decreases f.params@.len() - i,
    {
        let ty = declared_param_type(&f.params, i, &f.name, None)?;
        if i >= spans.len() {
            return Err(ModuleLowerError::TooManyFunctions);
        }
        let (start, count) = spans[i];
        let (value, c) = build_cabi_field_value(
            ty,
            Cursor { slot: start, scratch },
            base,
            module,
            find_nesting_limit(ty, module),
        )?;
        let consumed: u32 = if c.slot < start {
            0
        } else {
            c.slot - start
        };
        if consumed != count {
            return Err(
                not_supported(
                    UnsupportedKind::SlotMismatch {
                        param: f.params[i].name.clone(),
                        ty: ty.clone(),
                        consumed,
                        expected: count,
                    },
                ),
            );
        }
        plans.push(value);
        scratch = c.scratch;
        i = i + 1;
    }
    Ok((plans, scratch))
}

fn wrapper_function(plans: &Vec<CabiFieldValue>, scratch: u32, alloc: u32, inner: u32) -> (r:
    FunctionBody)
    ensures
        r@ == wrapper_body(plans@, scratch, alloc, inner),
{
    let mut sink = InstructionSink::new(None);
    let mut i: usize = 0;
    while i < plans.len()
        invariant
            i <= plans@.len(),
            build_code(plans@, 0, alloc, crate::module::nothing()) == build_code(
                plans@,
                i as int,
                alloc,
                sink@,
            ),
        decreases plans@.len() - i,
    {
        match &plans[i] {
            CabiFieldValue::DirectSlot { .. } => {},
            CabiFieldValue::MaterialisedScratch { scratch, ops } => {
                emit_cabi_materialise(ops, *scratch, &mut sink, alloc);
            },
        }
        i = i + 1;
    }
    let ghost built = sink@;
    let mut k: usize = 0;
    while k < plans.len()
        invariant
            k <= plans@.len(),
            push_code(plans@, 0, built) == push_code(plans@, k as int, sink@),
        decreases plans@.len() - k,
    {
        match &plans[k] {
            CabiFieldValue::DirectSlot { slot, .. } => sink.emit(Instr::LocalGet(*slot)),
            CabiFieldValue::MaterialisedScratch { scratch, .. } => sink.emit(
                Instr::LocalGet(*scratch),
            ),
        }
        k = k + 1;
    }
    sink.emit(Instr::Call(inner));
    sink.emit(Instr::End);
    crate::module::finish_words(scratch, sink)
}

/// Declare a wrapper that has the boundary's signature of `f` and forwards
/// to the function `inner`. Returns the wrapper's index.
pub fn emit_canonical_abi_wrapper(
    f: &IrFunction,
    inner_idx: u32,
    builder: &mut ModuleBuilder,
    module: &IrModule,
) -> (r: Result<u32, ModuleLowerError>)
    ensures
        declared(r, final(builder)@, with_wrapper(*f, inner_idx, old(builder)@, *module)),
{
    let alloc: u32 = builder.declare_bump_allocator();
    let (types, spans) = flatten_params(f, module)?;
    let results = lower_results(&f.return_type)?;
    let base: u32 = to_index(types.len())?;
    let (plans, scratch) = plan_params(f, &spans, base, module)?;
    let body = wrapper_function(&plans, scratch, alloc, inner_idx);
    let idx: u32 = builder.declare_function_with_body(&types, &results, body);
    let mut name = kebab_case(&f.name);
    name.append("::cabi-wrapper");
    builder.set_function_name(idx, &name);
    Ok(idx)
}

// ── imports ──────────────────────────────────────────────────────────

/// The code that pushes the parameters of an import, from parameter `i` on:
/// pointer and length of each text or list, the others as they are.
pub open spec fn forward_code(
    params: Seq<IrFunctionParam>,
    i: int,
    m: IrModule,
    s: SinkView,
) -> SinkView
    decreases params.len() - i,
{
    if i < 0 || i >= params.len() {
        s
    } else {
        forward_code(
            params,
            i + 1,
            m,
            if params[i].ty matches Some(ty) && crate::module_lowering::signature::is_two_words(
                ty,
                m,
            ) {
                crate::module::push_word(
                    i as u32,
                    STRING_LEN_OFFSET,
                    crate::module::push_word(i as u32, STRING_PTR_OFFSET, s),
                )
            } else {
                s.emit(Instr::LocalGet(i as u32))
            },
        )
    }
}

/// The builder with the trampoline of an import, and the trampoline's index,
/// which must be `expected`.
pub open spec fn with_import_trampoline(
    f: IrFunction,
    raw: u32,
    b: BuilderView,
    m: IrModule,
    expected: u32,
) -> Result<(BuilderView, u32), ModuleLowerError> {
    match crate::module_lowering::signature::internal_params(f, None) {
        Err(x) => Err(x),
        Ok(locals) => match crate::module_lowering::signature::results_of(f) {
            Err(x) => Err(x),
            Ok(results) => if f.params@.len() > u32::MAX + 1 || b.next_function() != expected {
                Err(ModuleLowerError::TooManyFunctions)
            } else {
                Ok(
                    (
                        b.with_function(
                            SigView {
                                params: crate::module_lowering::signature::local_types(locals),
                                results,
                            },
                            crate::module::word_body(
                                0,
                                forward_code(f.params@, 0, m, crate::module::nothing()).emit(
                                    Instr::Call(raw),
                                ).emit(Instr::End),
                            ),
                        ),
                        b.next_function(),
                    ),
                )
            },
        },
    }
}

/// Declare a function that has the module's signature of `f` and forwards to
/// the import `raw_import_idx`. Returns its index.
pub fn emit_canonical_abi_import_trampoline(
    f: &IrFunction,
    raw_import_idx: u32,
    builder: &mut ModuleBuilder,
    module: &IrModule,
    expected_idx: u32,
) -> (r: Result<u32, ModuleLowerError>)
    ensures
        declared(
            r,
            final(builder)@,
            with_import_trampoline(*f, raw_import_idx, old(builder)@, *module, expected_idx),
        ),
{
    let (types, _) = lower_params_with_self(f, None)?;
    let results = lower_results(&f.return_type)?;
    let mut sink = InstructionSink::new(None);
    let mut i: usize = 0;
    while i < f.params.len()
        invariant
            i <= f.params@.len(),
            i <= u32::MAX + 1,
            forward_code(f.params@, 0, *module, crate::module::nothing()) == forward_code(
                f.params@,
                i as int,
                *module,
                sink@,
            ),
            crate::module_lowering::signature::internal_params(*f, None) is Ok,
            crate::module_lowering::signature::results_of(*f) is Ok,
        decreases f.params@.len() - i,
    {
        let local: u32 = to_index(i)?;
        let split = match &f.params[i].ty {
            Some(ty) => passes_as_two_words(ty, module),
            None => false,
        };
        if split {
            crate::module::emit_word(local, STRING_PTR_OFFSET, &mut sink);
            crate::module::emit_word(local, STRING_LEN_OFFSET, &mut sink);
        } else {
            sink.emit(Instr::LocalGet(local));
        }
        i = i + 1;
    }
    sink.emit(Instr::Call(raw_import_idx));
    sink.emit(Instr::End);
    let body = crate::module::finish_words(0, sink);
    let idx: u32 = builder.declare_function_with_body(&types, &results, body);
    if idx != expected_idx {
        return Err(ModuleLowerError::TooManyFunctions);
    }
    Ok(idx)
}

/// The code that pushes the locals from `i` to `n`.
pub open spec fn locals_code(i: int, n: nat, s: SinkView) -> SinkView
    decreases n - i,
{
    if i >= n {
        s
    } else {
        locals_code(i + 1, n, s.emit(Instr::LocalGet(i as u32)))
    }
}

/// The body that drops its first parameter and forwards the others.
pub open spec fn receiver_free_body(params: nat, raw: u32) -> BodyView {
    crate::module::word_body(
        0,
        locals_code(1, params, crate::module::nothing()).emit(Instr::Call(raw)).emit(Instr::End),
    )
}

/// The body that drops its first parameter and forwards the others; fails
/// where a local lies past 32-bit indices.
pub fn forward_without_receiver(params: usize, raw: u32) -> (r: Result<
    FunctionBody,
    ModuleLowerError,
>)
    ensures
        match r {
            Ok(body) => params <= u32::MAX + 1 && body@ == receiver_free_body(params as nat, raw),
            Err(x) => params > u32::MAX + 1 && x == ModuleLowerError::TooManyFunctions,
        },
{
    let mut sink = InstructionSink::new(None);
    let mut i: usize = 1;
    while i < params
        invariant
            1 <= i,
            i <= params || i == 1,
            i <= u32::MAX + 1,
            locals_code(1, params as nat, crate::module::nothing()) == locals_code(
                i as int,
                params as nat,
                sink@,
            ),
        decreases params - i,
    {
        let local: u32 = to_index(i)?;
        sink.emit(Instr::LocalGet(local));
        i = i + 1;
    }
    sink.emit(Instr::Call(raw));
    sink.emit(Instr::End);
    Ok(crate::module::finish_words(0, sink))
}

// ── laws ─────────────────────────────────────────────────────────────

/// The spans of the parameters, from parameter `i` on, are as long as the
/// flat forms of their types.
pub open spec fn spans_fit(
    params: Seq<IrFunctionParam>,
    i: int,
    function: String,
    m: IrModule,
    spans: Seq<Span>,
) -> bool {
    forall|k: int|
        i <= k < params.len() && k < spans.len() ==> (
        crate::module_lowering::signature::declared_type(params, k, function, None) matches Ok(ty)
            ==> (crate::module_lowering::cabi::flat(ty, m, crate::module_lowering::nesting::nesting_limit(ty, m) as nat) matches Ok(s)
            ==> s.len() == (#[trigger] spans[k]).1))
}

proof fn lemma_flat_params(
    params: Seq<IrFunctionParam>,
    i: int,
    function: String,
    m: IrModule,
    types: Seq<ValType>,
    spans: Seq<Span>,
)
    requires
        0 <= i <= params.len(),
        spans.len() == i,
    ensures
        flat_params(params, i, function, m, types, spans) matches Ok(x) ==> {
            &&& x.1.len() == params.len()
            &&& forall|k: int| 0 <= k < i ==> #[trigger] x.1[k] == spans[k]
            &&& spans_fit(params, i, function, m, x.1)
        },
    decreases params.len() - i,
{
    if i < params.len() && flat_params(params, i, function, m, types, spans) is Ok {
        let ty = crate::module_lowering::signature::declared_type(params, i, function, None)->Ok_0;
        let s = crate::module_lowering::cabi::flat(ty, m, crate::module_lowering::nesting::nesting_limit(ty, m) as nat)->Ok_0;
        let span = (types.len() as u32, s.len() as u32);
        lemma_flat_params(params, i + 1, function, m, types + s, spans.push(span));
        let all = (flat_params(params, i, function, m, types, spans)->Ok_0).1;
        assert(all[i] == spans.push(span)[i]);
        assert forall|k: int| 0 <= k < i implies #[trigger] all[k] == spans[k] by {
            assert(all[k] == spans.push(span)[k]);
        }
    }
}

proof fn lemma_param_plans(
    params: Seq<IrFunctionParam>,
    i: int,
    function: String,
    spans: Seq<Span>,
    base: u32,
    m: IrModule,
    scratch: u32,
    out: Seq<CabiFieldValue>,
)
    requires
        0 <= i <= params.len(),
        spans.len() == params.len(),
        spans_fit(params, i, function, m, spans),
    ensures
        !is_mismatch(param_plans(params, i, function, spans, base, m, scratch, out)),
    decreases params.len() - i,
{
    if i < params.len() {
        if let Ok(ty) = crate::module_lowering::signature::declared_type(
            params,
            i,
            function,
            None,
        ) {
            let c = Cursor { slot: spans[i].0, scratch };
            crate::module_lowering::cabi::law_planning_takes_every_slot(
                ty,
                c,
                base,
                m,
                crate::module_lowering::nesting::nesting_limit(ty, m) as nat,
            );
            lemma_no_mismatch(ty, c, base, m, crate::module_lowering::nesting::nesting_limit(ty, m) as nat);
            if let Ok((value, c1)) = crate::module_lowering::cabi::value_plan(
                ty,
                c,
                base,
                m,
                crate::module_lowering::nesting::nesting_limit(ty, m) as nat,
            ) {
                lemma_param_plans(
                    params,
                    i + 1,
                    function,
                    spans,
                    base,
                    m,
                    c1.scratch,
                    out.push(value),
                );
            }
        }
    }
}

/// Whether planning failed because it took another number of slots than
/// flattening gives.
pub open spec fn is_mismatch<T>(r: Result<T, ModuleLowerError>) -> bool {
    r matches Err(ModuleLowerError::TypeMap(TypeMapError::NotYetSupported { kind })) && kind
        is SlotMismatch
}

proof fn lemma_no_mismatch(ty: ResolvedType, c: Cursor, base: u32, m: IrModule, depth: nat)
    ensures
        !is_mismatch(crate::module_lowering::cabi::value_plan(ty, c, base, m, depth)),
        !is_mismatch(crate::module_lowering::cabi::flat(ty, m, depth)),
    decreases depth, 0int, 0int,
{
    if depth > 0 {
        let inner = (depth - 1) as nat;
        match ty {
            ResolvedType::Tuple(fields) => {
                lemma_no_mismatch_fields(
                    crate::layout::tuple_fields(fields),
                    LayoutOwner::Tuple,
                    c,
                    base,
                    m,
                    inner,
                );
            },
            ResolvedType::Optional(payload) => {
                lemma_no_mismatch(*payload, c, base, m, inner);
            },
            _ => {
                if let Some(id) = crate::compound::struct_id(ty) {
                    if let Some(s) = m.spec_struct(id) {
                        lemma_no_mismatch_fields(
                            s.fields@,
                            LayoutOwner::Struct(s.name),
                            c,
                            base,
                            m,
                            inner,
                        );
                    }
                } else if let Some(id) = crate::compound::enum_id(ty) {
                    if let Some(e) = m.spec_enum(id) {
                        lemma_no_mismatch_payloads(
                            crate::module_lowering::cabi::instance_of(ty, id, e),
                            0,
                            m,
                            inner,
                            Seq::empty(),
                        );
                    }
                }
            },
        }
    }
}

proof fn lemma_no_mismatch_fields(
    fields: Seq<IrField>,
    owner: LayoutOwner,
    c: Cursor,
    base: u32,
    m: IrModule,
    depth: nat,
)
    ensures
        !is_mismatch(
            crate::module_lowering::cabi::aggregate_plan(fields, owner, c, base, m, depth),
        ),
        !is_mismatch(
            crate::module_lowering::cabi::flat_fields(fields, 0, m, depth, Seq::empty()),
        ),
    decreases depth, 2int, 0int,
{
    lemma_no_mismatch_flat(fields, 0, m, depth, Seq::empty());
    if let Ok(layout) = crate::layout::fields_plan(owner, fields) {
        lemma_no_mismatch_plans(fields, layout.fields, 0, c, base, m, depth, Seq::empty());
    }
}

proof fn lemma_no_mismatch_flat(
    fields: Seq<IrField>,
    i: int,
    m: IrModule,
    depth: nat,
    out: Seq<ValType>,
)
    ensures
        !is_mismatch(crate::module_lowering::cabi::flat_fields(fields, i, m, depth, out)),
    decreases depth, 1int, fields.len() - i,
{
    if 0 <= i < fields.len() {
        lemma_no_mismatch(fields[i].ty, Cursor { slot: 0, scratch: 0 }, 0, m, depth);
        if let Ok(s) = crate::module_lowering::cabi::flat(fields[i].ty, m, depth) {
            lemma_no_mismatch_flat(fields, i + 1, m, depth, out + s);
        }
    }
}

proof fn lemma_no_mismatch_payloads(
    shapes: Seq<VariantShape>,
    i: int,
    m: IrModule,
    depth: nat,
    best: Seq<ValType>,
)
    ensures
        !is_mismatch(crate::module_lowering::cabi::largest_payload(shapes, i, m, depth, best)),
    decreases depth, 2int, shapes.len() - i,
{
    if 0 <= i < shapes.len() {
        lemma_no_mismatch_flat(shapes[i].fields, 0, m, depth, Seq::empty());
        if let Ok(s) = crate::module_lowering::cabi::flat_fields(
            shapes[i].fields,
            0,
            m,
            depth,
            Seq::empty(),
        ) {
            lemma_no_mismatch_payloads(
                shapes,
                i + 1,
                m,
                depth,
                if s.len() > best.len() {
                    s
                } else {
                    best
                },
            );
        }
    }
}

proof fn lemma_no_mismatch_plans(
    fields: Seq<IrField>,
    places: Seq<FieldLayout>,
    i: int,
    c: Cursor,
    base: u32,
    m: IrModule,
    depth: nat,
    out: Seq<CabiStructFieldOp>,
)
    ensures
        !is_mismatch(
            crate::module_lowering::cabi::fields_plan(fields, places, i, c, base, m, depth, out),
        ),
    decreases depth, 1int, fields.len() - i,
{
    if 0 <= i < fields.len() && i < places.len() {
        lemma_no_mismatch(fields[i].ty, c, base, m, depth);
        if let Ok((value, c1)) = crate::module_lowering::cabi::value_plan(
            fields[i].ty,
            c,
            base,
            m,
            depth,
        ) {
            lemma_no_mismatch_plans(
                fields,
                places,
                i + 1,
                c1,
                base,
                m,
                depth,
                out.push(CabiStructFieldOp { offset: places[i].offset, value }),
            );
        }
    }
}

/// An export wrapper never fails over the number of flat slots: planning its
/// parameters takes what flattening them gives.
pub proof fn law_wrappers_take_every_slot(f: IrFunction, inner: u32, b: BuilderView, m: IrModule)
    ensures
        !is_mismatch(with_wrapper(f, inner, b, m)),
{
    lemma_flat_params(f.params@, 0, f.name, m, Seq::empty(), Seq::empty());
    lemma_flat_errors(f.params@, 0, f.name, m, Seq::empty(), Seq::empty());
    if let Ok((types, spans)) = flat_params(
        f.params@,
        0,
        f.name,
        m,
        Seq::empty(),
        Seq::empty(),
    ) {
        if types.len() <= u32::MAX {
            lemma_param_plans(
                f.params@,
                0,
                f.name,
                spans,
                types.len() as u32,
                m,
                0,
                Seq::empty(),
            );
        }
    }
}

proof fn lemma_flat_errors(
    params: Seq<IrFunctionParam>,
    i: int,
    function: String,
    m: IrModule,
    types: Seq<ValType>,
    spans: Seq<Span>,
)
    ensures
        !is_mismatch(flat_params(params, i, function, m, types, spans)),
    decreases params.len() - i,
{
    if 0 <= i < params.len() {
        if let Ok(ty) = crate::module_lowering::signature::declared_type(
            params,
            i,
            function,
            None,
        ) {
            lemma_no_mismatch(ty, Cursor { slot: 0, scratch: 0 }, 0, m, crate::module_lowering::nesting::nesting_limit(ty, m) as nat);
            if let Ok(s) = crate::module_lowering::cabi::flat(ty, m, crate::module_lowering::nesting::nesting_limit(ty, m) as nat) {
                lemma_flat_errors(
                    params,
                    i + 1,
                    function,
                    m,
                    types + s,
                    spans.push((types.len() as u32, s.len() as u32)),
                );
            }
        }
    }
}

} // verus!
