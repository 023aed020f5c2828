//! The typed intermediate representation the backend consumes.
//!
//! A module is a set of item tables (`structs`, `enums`, `functions`, ...)
//! that refer to each other by index. Type trees are shared-nothing values
//! built from [`List`], so a copied type is equal to its source in every
//! respect and error values can carry the offending type.

use vstd::prelude::*;

verus! {

/// Index of a struct in [`IrModule::structs`].
#[derive(Clone, Copy, Debug, PartialEq, Eq, Structural)]
pub struct StructId(pub u32);

/// Index of an enum in [`IrModule::enums`].
#[derive(Clone, Copy, Debug, PartialEq, Eq, Structural)]
pub struct EnumId(pub u32);

/// Index of a trait in [`IrModule::traits`].
#[derive(Clone, Copy, Debug, PartialEq, Eq, Structural)]
pub struct TraitId(pub u32);

/// Index of a function in [`IrModule::functions`].
#[derive(Clone, Copy, Debug, PartialEq, Eq, Structural)]
pub struct FunctionId(pub u32);

/// Index of an impl block in [`IrModule::impls`].
#[derive(Clone, Copy, Debug, PartialEq, Eq, Structural)]
pub struct ImplId(pub u32);

/// Index of a method inside its impl block or trait.
#[derive(Clone, Copy, Debug, PartialEq, Eq, Structural)]
pub struct MethodIdx(pub u32);

/// Index of a field inside its struct or variant.
#[derive(Clone, Copy, Debug, PartialEq, Eq, Structural)]
pub struct FieldIdx(pub u32);

/// Index of a variant inside its enum.
#[derive(Clone, Copy, Debug, PartialEq, Eq, Structural)]
pub struct VariantIdx(pub u32);

/// Index of a module-level `let`.
#[derive(Clone, Copy, Debug, PartialEq, Eq, Structural)]
pub struct LetId(pub u32);

/// Identity of a function-local binding: a parameter, a `let`, a loop
/// variable or a match-arm payload name.
#[derive(Clone, Copy, Debug, PartialEq, Eq, Structural)]
pub struct BindingId(pub u32);

/// Item visibility.
#[derive(Clone, Copy, Debug, PartialEq, Eq, Structural)]
pub enum Visibility {
    Public,
    Private,
}

/// Built-in scalar and text types.
#[derive(Clone, Copy, Debug, PartialEq, Eq, Structural)]
pub enum PrimitiveType {
    String,
    I32,
    I64,
    F32,
    F64,
    Boolean,
    Path,
    Regex,
    Never,
}

/// How a closure receives a parameter.
#[derive(Clone, Copy, Debug, PartialEq, Eq, Structural)]
pub enum ParamConvention {
    Let,
    Mut,
    Sink,
}

/// What kind of item an imported name stands for.
#[derive(Clone, Copy, Debug, PartialEq, Eq, Structural)]
pub enum ImportedKind {
    Struct,
    Trait,
    Enum,
}

/// The definition a generic instantiation applies its arguments to.
#[derive(Clone, Copy, Debug, PartialEq, Eq, Structural)]
pub enum GenericBase {
    Struct(StructId),
    Enum(EnumId),
    Trait(TraitId),
}

/// Infix operators.
#[derive(Clone, Copy, Debug, PartialEq, Eq, Structural)]
pub enum BinaryOperator {
    Add,
    Sub,
    Mul,
    Div,
    Mod,
    Lt,
    Gt,
    Le,
    Ge,
    Eq,
    Ne,
    And,
    Or,
    Range,
}

/// Prefix operators.
#[derive(Clone, Copy, Debug, PartialEq, Eq, Structural)]
pub enum UnaryOperator {
    Neg,
    Not,
}

/// An immutable list, used where a type tree holds several children.
#[derive(Debug, PartialEq, Eq)]
pub enum List<T> {
    Nil,
    Cons(Box<T>, Box<List<T>>),
}

impl<T> List<T> {
    /// The elements in order.
    pub open spec fn seq(self) -> Seq<T>
        decreases self,
    {
        match self {
            List::Nil => Seq::empty(),
            List::Cons(head, tail) => seq![*head] + tail.seq(),
        }
    }

    /// The list of `s`'s elements.
    pub open spec fn of_seq(s: Seq<T>) -> List<T>
        decreases s.len(),
    {
        if s.len() == 0 {
            List::Nil
        } else {
            List::Cons(Box::new(s[0]), Box::new(List::of_seq(s.drop_first())))
        }
    }

    /// Build a list holding the elements of `items`, in order.
    pub fn from_vec(items: Vec<T>) -> (list: List<T>)
        ensures
            list.seq() == items@,
            list == List::of_seq(items@),
    {
        let ghost all = items@;
        let mut rest: Vec<T> = items;
        let mut list: List<T> = List::Nil;
        proof {
            assert(all.skip(all.len() as int) =~= Seq::empty());
        }
        while rest.len() > 0
            invariant
                rest@ == all.take(rest@.len() as int),
                rest@.len() <= all.len(),
                list == List::of_seq(all.skip(rest@.len() as int)),
            decreases rest@.len(),
        {
            let ghost k = rest@.len() as int;
            match rest.pop() {
                Some(head) => {
                    proof {
                        assert(all.skip(k - 1).drop_first() =~= all.skip(k));
                        assert(all.take(k).drop_last() =~= all.take(k - 1));
                        assert(head == all.skip(k - 1)[0]);
                    }
                    list = List::Cons(Box::new(head), Box::new(list));
                },
                None => {},
            }
        }
        proof {
            assert(all.skip(0) =~= all);
            lemma_list_round_trip(all);
        }
        list
    }

    /// First element, if any.
    pub fn first(&self) -> (r: Option<&T>)
        ensures
            match r {
                Some(head) => self.seq().len() > 0 && *head == self.seq()[0],
                None => self.seq().len() == 0,
            },
    {
        match self {
            List::Nil => None,
            List::Cons(head, _) => Some(head),
        }
    }
}

impl List<u32> {
    /// The numbers in order.
    pub fn to_vec_u32(&self) -> (r: Vec<u32>)
        ensures
            r@ == self.seq(),
    {
        let mut out: Vec<u32> = Vec::new();
        let mut rest: &List<u32> = self;
        proof {
            assert(out@ + rest.seq() =~= self.seq());
        }
        loop
            invariant
                out@ + rest.seq() == self.seq(),
            ensures
                out@ == self.seq(),
            decreases *rest,
        {
            match rest {
                List::Nil => {
                    proof {
                        assert(out@ + rest.seq() =~= out@);
                    }
                    break ;
                },
                List::Cons(head, tail) => {
                    let ghost before = out@;
                    out.push(**head);
                    proof {
                        assert(before + (seq![**head] + tail.seq()) =~= out@ + tail.seq());
                    }
                    rest = tail;
                },
            }
        }
        out
    }
}

/// A list is the list of its elements.
pub proof fn lemma_list_of_its_seq<T>(l: List<T>)
    ensures
        List::of_seq(l.seq()) == l,
    decreases l,
{
    match l {
        List::Nil => {},
        List::Cons(head, tail) => {
            lemma_list_of_its_seq(*tail);
            assert(l.seq().drop_first() =~= tail.seq());
        },
    }
}

/// Reading a list built from a sequence gives the sequence back.
pub proof fn lemma_list_round_trip<T>(s: Seq<T>)
    ensures
        List::of_seq(s).seq() == s,
    decreases s.len(),
{
    if s.len() > 0 {
        lemma_list_round_trip(s.drop_first());
        assert(seq![s[0]] + s.drop_first() =~= s);
    } else {
        assert(s =~= Seq::empty());
    }
}

/// A fully resolved type.
#[derive(Debug, PartialEq, Eq)]
pub enum ResolvedType {
    Primitive(PrimitiveType),
    Struct(StructId),
    Trait(TraitId),
    Enum(EnumId),
    Array(Box<ResolvedType>),
    Range(Box<ResolvedType>),
    Optional(Box<ResolvedType>),
    Tuple(List<(String, ResolvedType)>),
    Generic { base: GenericBase, args: List<ResolvedType> },
    TypeParam(String),
    External {
        source_path: List<String>,
        name: String,
        kind: ImportedKind,
        type_args: List<ResolvedType>,
    },
    Dictionary { key_ty: Box<ResolvedType>, value_ty: Box<ResolvedType> },
    Closure { param_tys: List<(ParamConvention, ResolvedType)>, return_ty: Box<ResolvedType> },
    Error,
}

/// Copy a list of names.
pub fn clone_names(names: &List<String>) -> (r: List<String>)
    ensures
        r == *names,
    decreases names,
{
    match names {
        List::Nil => List::Nil,
        List::Cons(head, tail) => List::Cons(Box::new((&**head).clone()), Box::new(clone_names(tail))),
    }
}

/// Copy a list of types.
pub fn clone_types(types: &List<ResolvedType>) -> (r: List<ResolvedType>)
    ensures
        r == *types,
    decreases types,
{
    match types {
        List::Nil => List::Nil,
        List::Cons(head, tail) => List::Cons(
            Box::new((&**head).clone()),
            Box::new(clone_types(tail)),
        ),
    }
}

/// Copy a list of named types.
pub fn clone_fields(fields: &List<(String, ResolvedType)>) -> (r: List<(String, ResolvedType)>)
    ensures
        r == *fields,
    decreases fields,
{
    match fields {
        List::Nil => List::Nil,
        List::Cons(head, tail) => List::Cons(
            Box::new((head.0.clone(), head.1.clone())),
            Box::new(clone_fields(tail)),
        ),
    }
}

/// Copy a list of closure parameter types.
pub fn clone_params(params: &List<(ParamConvention, ResolvedType)>) -> (r: List<
    (ParamConvention, ResolvedType),
>)
    ensures
        r == *params,
    decreases params,
{
    match params {
        List::Nil => List::Nil,
        List::Cons(head, tail) => List::Cons(
            Box::new((head.0, head.1.clone())),
            Box::new(clone_params(tail)),
        ),
    }
}

impl Clone for ResolvedType {
    fn clone(&self) -> (r: Self)
        ensures
            r == *self,
        decreases self,
    {
        match self {
            ResolvedType::Primitive(p) => ResolvedType::Primitive(*p),
            ResolvedType::Struct(id) => ResolvedType::Struct(*id),
            ResolvedType::Trait(id) => ResolvedType::Trait(*id),
            ResolvedType::Enum(id) => ResolvedType::Enum(*id),
            ResolvedType::Array(t) => ResolvedType::Array(Box::new((&**t).clone())),
            ResolvedType::Range(t) => ResolvedType::Range(Box::new((&**t).clone())),
            ResolvedType::Optional(t) => ResolvedType::Optional(Box::new((&**t).clone())),
            ResolvedType::Tuple(fields) => ResolvedType::Tuple(clone_fields(fields)),
            ResolvedType::Generic { base, args } => ResolvedType::Generic {
                base: *base,
                args: clone_types(args),
            },
            ResolvedType::TypeParam(name) => ResolvedType::TypeParam(name.clone()),
            ResolvedType::External { source_path, name, kind, type_args } => ResolvedType::External {
                source_path: clone_names(source_path),
                name: name.clone(),
                kind: *kind,
                type_args: clone_types(type_args),
            },
            ResolvedType::Dictionary { key_ty, value_ty } => ResolvedType::Dictionary {
                key_ty: Box::new((&**key_ty).clone()),
                value_ty: Box::new((&**value_ty).clone()),
            },
            ResolvedType::Closure { param_tys, return_ty } => ResolvedType::Closure {
                param_tys: clone_params(param_tys),
                return_ty: Box::new((&**return_ty).clone()),
            },
            ResolvedType::Error => ResolvedType::Error,
        }
    }
}

/// Whether two name lists spell the same names.
pub open spec fn same_names(a: List<String>, b: List<String>) -> bool
    decreases a,
{
    match (a, b) {
        (List::Nil, List::Nil) => true,
        (List::Cons(x, xs), List::Cons(y, ys)) => x@ == y@ && same_names(*xs, *ys),
        _ => false,
    }
}

/// Whether two type lists are pairwise the same type.
pub open spec fn same_types(a: List<ResolvedType>, b: List<ResolvedType>) -> bool
    decreases a,
{
    match (a, b) {
        (List::Nil, List::Nil) => true,
        (List::Cons(x, xs), List::Cons(y, ys)) => same_type(*x, *y) && same_types(*xs, *ys),
        _ => false,
    }
}

/// Whether two named-type lists agree on names and types.
pub open spec fn same_fields(
    a: List<(String, ResolvedType)>,
    b: List<(String, ResolvedType)>,
) -> bool
    decreases a,
{
    match (a, b) {
        (List::Nil, List::Nil) => true,
        (List::Cons(x, xs), List::Cons(y, ys)) => {
            &&& x.0@ == y.0@
            &&& same_type(x.1, y.1)
            &&& same_fields(*xs, *ys)
        },
        _ => false,
    }
}

/// Whether two closure parameter lists agree on conventions and types.
pub open spec fn same_params(
    a: List<(ParamConvention, ResolvedType)>,
    b: List<(ParamConvention, ResolvedType)>,
) -> bool
    decreases a,
{
    match (a, b) {
        (List::Nil, List::Nil) => true,
        (List::Cons(x, xs), List::Cons(y, ys)) => {
            &&& x.0 == y.0
            &&& same_type(x.1, y.1)
            &&& same_params(*xs, *ys)
        },
        _ => false,
    }
}

/// Structural type identity: the same tree with the same spelling of names.
pub open spec fn same_type(a: ResolvedType, b: ResolvedType) -> bool
    decreases a,
{
    match (a, b) {
        (ResolvedType::Primitive(p), ResolvedType::Primitive(q)) => p == q,
        (ResolvedType::Struct(p), ResolvedType::Struct(q)) => p == q,
        (ResolvedType::Trait(p), ResolvedType::Trait(q)) => p == q,
        (ResolvedType::Enum(p), ResolvedType::Enum(q)) => p == q,
        (ResolvedType::Array(p), ResolvedType::Array(q)) => same_type(*p, *q),
        (ResolvedType::Range(p), ResolvedType::Range(q)) => same_type(*p, *q),
        (ResolvedType::Optional(p), ResolvedType::Optional(q)) => same_type(*p, *q),
        (ResolvedType::Tuple(p), ResolvedType::Tuple(q)) => same_fields(p, q),
        (
            ResolvedType::Generic { base: b1, args: a1 },
            ResolvedType::Generic { base: b2, args: a2 },
        ) => b1 == b2 && same_types(a1, a2),
        (ResolvedType::TypeParam(p), ResolvedType::TypeParam(q)) => p@ == q@,
        (
            ResolvedType::External { source_path: m1, name: n1, kind: k1, type_args: t1 },
            ResolvedType::External { source_path: m2, name: n2, kind: k2, type_args: t2 },
        ) => {
            &&& same_names(m1, m2)
            &&& n1@ == n2@
            &&& k1 == k2
            &&& same_types(t1, t2)
        },
        (
            ResolvedType::Dictionary { key_ty: k1, value_ty: v1 },
            ResolvedType::Dictionary { key_ty: k2, value_ty: v2 },
        ) => same_type(*k1, *k2) && same_type(*v1, *v2),
        (
            ResolvedType::Closure { param_tys: p1, return_ty: r1 },
            ResolvedType::Closure { param_tys: p2, return_ty: r2 },
        ) => same_params(p1, p2) && same_type(*r1, *r2),
        (ResolvedType::Error, ResolvedType::Error) => true,
        _ => false,
    }
}

/// Decide [`same_names`].
pub fn names_equal(a: &List<String>, b: &List<String>) -> (r: bool)
    ensures
        r == same_names(*a, *b),
    decreases a,
{
    match (a, b) {
        (List::Nil, List::Nil) => true,
        (List::Cons(x, xs), List::Cons(y, ys)) => **x == **y && names_equal(xs, ys),
        _ => false,
    }
}

/// Decide [`same_types`].
pub fn type_lists_equal(a: &List<ResolvedType>, b: &List<ResolvedType>) -> (r: bool)
    ensures
        r == same_types(*a, *b),
    decreases a,
{
    match (a, b) {
        (List::Nil, List::Nil) => true,
        (List::Cons(x, xs), List::Cons(y, ys)) => types_equal(x, y) && type_lists_equal(xs, ys),
        _ => false,
    }
}

/// Decide [`same_fields`].
pub fn field_lists_equal(
    a: &List<(String, ResolvedType)>,
    b: &List<(String, ResolvedType)>,
) -> (r: bool)
    ensures
        r == same_fields(*a, *b),
    decreases a,
{
    match (a, b) {
        (List::Nil, List::Nil) => true,
        (List::Cons(x, xs), List::Cons(y, ys)) => x.0 == y.0 && types_equal(&x.1, &y.1)
            && field_lists_equal(xs, ys),
        _ => false,
    }
}

/// Decide [`same_params`].
pub fn param_lists_equal(
    a: &List<(ParamConvention, ResolvedType)>,
    b: &List<(ParamConvention, ResolvedType)>,
) -> (r: bool)
    ensures
        r == same_params(*a, *b),
    decreases a,
{
    match (a, b) {
        (List::Nil, List::Nil) => true,
        (List::Cons(x, xs), List::Cons(y, ys)) => x.0 == y.0 && types_equal(&x.1, &y.1)
            && param_lists_equal(xs, ys),
        _ => false,
    }
}

/// Decide [`same_type`].
pub fn types_equal(a: &ResolvedType, b: &ResolvedType) -> (r: bool)
    ensures
        r == same_type(*a, *b),
    decreases a,
{
    match (a, b) {
        (ResolvedType::Primitive(p), ResolvedType::Primitive(q)) => *p == *q,
        (ResolvedType::Struct(p), ResolvedType::Struct(q)) => *p == *q,
        (ResolvedType::Trait(p), ResolvedType::Trait(q)) => *p == *q,
        (ResolvedType::Enum(p), ResolvedType::Enum(q)) => *p == *q,
        (ResolvedType::Array(p), ResolvedType::Array(q)) => types_equal(p, q),
        (ResolvedType::Range(p), ResolvedType::Range(q)) => types_equal(p, q),
        (ResolvedType::Optional(p), ResolvedType::Optional(q)) => types_equal(p, q),
        (ResolvedType::Tuple(p), ResolvedType::Tuple(q)) => field_lists_equal(p, q),
        (
            ResolvedType::Generic { base: b1, args: a1 },
            ResolvedType::Generic { base: b2, args: a2 },
        ) => *b1 == *b2 && type_lists_equal(a1, a2),
        (ResolvedType::TypeParam(p), ResolvedType::TypeParam(q)) => *p == *q,
        (
            ResolvedType::External { source_path: m1, name: n1, kind: k1, type_args: t1 },
            ResolvedType::External { source_path: m2, name: n2, kind: k2, type_args: t2 },
        ) => names_equal(m1, m2) && *n1 == *n2 && *k1 == *k2 && type_lists_equal(t1, t2),
        (
            ResolvedType::Dictionary { key_ty: k1, value_ty: v1 },
            ResolvedType::Dictionary { key_ty: k2, value_ty: v2 },
        ) => types_equal(k1, k2) && types_equal(v1, v2),
        (
            ResolvedType::Closure { param_tys: p1, return_ty: r1 },
            ResolvedType::Closure { param_tys: p2, return_ty: r2 },
        ) => param_lists_equal(p1, p2) && types_equal(r1, r2),
        (ResolvedType::Error, ResolvedType::Error) => true,
        _ => false,
    }
}

/// Value part of a numeric literal.
#[derive(Clone, Copy, Debug, PartialEq, Eq, Structural)]
pub enum NumberValue {
    /// Written with integer syntax.
    Integer(i128),
    /// Written with a fraction or an exponent.
    Float,
}

/// A numeric literal.
///
/// The frontend supplies the IEEE-754 images of the value in both widths next
/// to the integer payload, and the spelling of a value that is no integer.
#[derive(Debug, PartialEq, Eq)]
pub struct NumberLiteral {
    pub value: NumberValue,
    /// Bit pattern of the value rounded to single precision.
    pub f32_bits: u32,
    /// Bit pattern of the value rounded to double precision.
    pub f64_bits: u64,
    /// Spelling of a value with float syntax, used in diagnostics.
    pub text: String,
}

impl NumberLiteral {
    /// The payload as a signed 32-bit integer: `None` for float syntax and
    /// for integers out of range.
    pub fn as_i32(&self) -> (r: Option<i32>)
        ensures
            r == (match self.value {
                NumberValue::Integer(v) if i32::MIN <= v <= i32::MAX => Some(v as i32),
                _ => None,
            }),
    {
        match self.value {
            NumberValue::Integer(v) => {
                if -2147483648 <= v && v <= 2147483647 {
                    Some(v as i32)
                } else {
                    None
                }
            },
            NumberValue::Float => None,
        }
    }

    /// The payload as a signed 64-bit integer: `None` for float syntax and
    /// for integers out of range.
    pub fn as_i64(&self) -> (r: Option<i64>)
        ensures
            r == (match self.value {
                NumberValue::Integer(v) if i64::MIN <= v <= i64::MAX => Some(v as i64),
                _ => None,
            }),
    {
        match self.value {
            NumberValue::Integer(v) => {
                if -9223372036854775808 <= v && v <= 9223372036854775807 {
                    Some(v as i64)
                } else {
                    None
                }
            },
            NumberValue::Float => None,
        }
    }
}

/// A literal expression's payload.
#[derive(Debug, PartialEq, Eq)]
pub enum Literal {
    String(String),
    Number(NumberLiteral),
    Boolean(bool),
    Regex { pattern: String, flags: String },
    Path(String),
    Nil,
}

/// What a name reference resolved to.
#[derive(Debug, PartialEq, Eq)]
pub enum ReferenceTarget {
    Function(FunctionId),
    Struct(StructId),
    Enum(EnumId),
    Trait(TraitId),
    ModuleLet(LetId),
    Local(BindingId),
    Param(BindingId),
    External { name: String },
    Unresolved,
}

/// How a method call finds its callee.
#[derive(Debug, PartialEq, Eq)]
pub enum DispatchKind {
    Static { impl_id: ImplId },
    Virtual { trait_id: TraitId, method_name: String },
}

/// A typed expression.
#[allow(inconsistent_fields)]
#[derive(Debug, PartialEq, Eq)]
pub enum IrExpr {
    Literal { value: Literal, ty: ResolvedType },
    StructInst {
        struct_id: Option<StructId>,
        fields: Vec<(String, FieldIdx, IrExpr)>,
        ty: ResolvedType,
    },
    EnumInst {
        enum_id: Option<EnumId>,
        variant: String,
        variant_idx: VariantIdx,
        fields: Vec<(String, FieldIdx, IrExpr)>,
        ty: ResolvedType,
    },
    Array { elements: Vec<IrExpr>, ty: ResolvedType },
    Tuple { fields: Vec<(String, IrExpr)>, ty: ResolvedType },
    Reference { path: List<String>, target: ReferenceTarget, ty: ResolvedType },
    SelfFieldRef { field: String, field_idx: FieldIdx, ty: ResolvedType },
    FieldAccess { object: Box<IrExpr>, field: String, field_idx: FieldIdx, ty: ResolvedType },
    LetRef { name: String, binding_id: BindingId, ty: ResolvedType },
    BinaryOp { left: Box<IrExpr>, op: BinaryOperator, right: Box<IrExpr>, ty: ResolvedType },
    UnaryOp { op: UnaryOperator, operand: Box<IrExpr>, ty: ResolvedType },
    If {
        condition: Box<IrExpr>,
        then_branch: Box<IrExpr>,
        else_branch: Option<Box<IrExpr>>,
        ty: ResolvedType,
    },
    For {
        var: String,
        var_ty: ResolvedType,
        var_binding_id: BindingId,
        collection: Box<IrExpr>,
        body: Box<IrExpr>,
        ty: ResolvedType,
    },
    Match { scrutinee: Box<IrExpr>, arms: Vec<IrMatchArm>, ty: ResolvedType },
    FunctionCall {
        path: List<String>,
        function_id: Option<FunctionId>,
        args: Vec<(Option<String>, IrExpr)>,
        ty: ResolvedType,
    },
    CallClosure { closure: Box<IrExpr>, args: Vec<(Option<String>, IrExpr)>, ty: ResolvedType },
    MethodCall {
        receiver: Box<IrExpr>,
        method: String,
        method_idx: MethodIdx,
        args: Vec<(Option<String>, IrExpr)>,
        dispatch: DispatchKind,
        ty: ResolvedType,
    },
    Closure { body: Box<IrExpr>, ty: ResolvedType },
    ClosureRef { funcref: Vec<String>, env_struct: Box<IrExpr>, ty: ResolvedType },
    DictLiteral { entries: Vec<(IrExpr, IrExpr)>, ty: ResolvedType },
    DictAccess { dict: Box<IrExpr>, key: Box<IrExpr>, ty: ResolvedType },
    Block { statements: Vec<IrBlockStatement>, result: Box<IrExpr>, ty: ResolvedType },
}

/// A statement inside a block expression.
#[derive(Debug, PartialEq, Eq)]
pub enum IrBlockStatement {
    Let { binding_id: BindingId, name: String, ty: Option<ResolvedType>, value: IrExpr },
    Assign { target: IrExpr, value: IrExpr },
    Expr(IrExpr),
}

/// One arm of a match expression.
#[derive(Debug, PartialEq, Eq)]
pub struct IrMatchArm {
    pub variant: String,
    pub variant_idx: VariantIdx,
    pub is_wildcard: bool,
    pub bindings: Vec<(String, BindingId, ResolvedType)>,
    pub body: IrExpr,
}

impl IrExpr {
    /// The type the expression carries.
    pub open spec fn spec_ty(self) -> ResolvedType {
        match self {
            IrExpr::Literal { ty, .. } => ty,
            IrExpr::StructInst { ty, .. } => ty,
            IrExpr::EnumInst { ty, .. } => ty,
            IrExpr::Array { ty, .. } => ty,
            IrExpr::Tuple { ty, .. } => ty,
            IrExpr::Reference { ty, .. } => ty,
            IrExpr::SelfFieldRef { ty, .. } => ty,
            IrExpr::FieldAccess { ty, .. } => ty,
            IrExpr::LetRef { ty, .. } => ty,
            IrExpr::BinaryOp { ty, .. } => ty,
            IrExpr::UnaryOp { ty, .. } => ty,
            IrExpr::If { ty, .. } => ty,
            IrExpr::For { ty, .. } => ty,
            IrExpr::Match { ty, .. } => ty,
            IrExpr::FunctionCall { ty, .. } => ty,
            IrExpr::CallClosure { ty, .. } => ty,
            IrExpr::MethodCall { ty, .. } => ty,
            IrExpr::Closure { ty, .. } => ty,
            IrExpr::ClosureRef { ty, .. } => ty,
            IrExpr::DictLiteral { ty, .. } => ty,
            IrExpr::DictAccess { ty, .. } => ty,
            IrExpr::Block { ty, .. } => ty,
        }
    }

    /// The type the expression carries.
    pub fn ty(&self) -> (r: &ResolvedType)
        ensures
            *r == self.spec_ty(),
    {
        match self {
            IrExpr::Literal { ty, .. } => ty,
            IrExpr::StructInst { ty, .. } => ty,
            IrExpr::EnumInst { ty, .. } => ty,
            IrExpr::Array { ty, .. } => ty,
            IrExpr::Tuple { ty, .. } => ty,
            IrExpr::Reference { ty, .. } => ty,
            IrExpr::SelfFieldRef { ty, .. } => ty,
            IrExpr::FieldAccess { ty, .. } => ty,
            IrExpr::LetRef { ty, .. } => ty,
            IrExpr::BinaryOp { ty, .. } => ty,
            IrExpr::UnaryOp { ty, .. } => ty,
            IrExpr::If { ty, .. } => ty,
            IrExpr::For { ty, .. } => ty,
            IrExpr::Match { ty, .. } => ty,
            IrExpr::FunctionCall { ty, .. } => ty,
            IrExpr::CallClosure { ty, .. } => ty,
            IrExpr::MethodCall { ty, .. } => ty,
            IrExpr::Closure { ty, .. } => ty,
            IrExpr::ClosureRef { ty, .. } => ty,
            IrExpr::DictLiteral { ty, .. } => ty,
            IrExpr::DictAccess { ty, .. } => ty,
            IrExpr::Block { ty, .. } => ty,
        }
    }
}

/// A generic parameter of an item.
#[derive(Debug, PartialEq, Eq)]
pub struct IrGenericParam {
    pub name: String,
}

/// A field of a struct, of a trait or of an enum variant.
#[derive(Debug, PartialEq, Eq)]
pub struct IrField {
    pub name: String,
    pub ty: ResolvedType,
    /// Whether the field was declared `T?`.
    pub optional: bool,
    pub default: Option<IrExpr>,
}

/// A struct definition.
#[derive(Debug, PartialEq, Eq)]
pub struct IrStruct {
    pub name: String,
    pub visibility: Visibility,
    pub fields: Vec<IrField>,
    pub generic_params: Vec<IrGenericParam>,
}

/// A variant of an enum.
#[derive(Debug, PartialEq, Eq)]
pub struct IrEnumVariant {
    pub name: String,
    pub fields: Vec<IrField>,
}

/// An enum definition.
#[derive(Debug, PartialEq, Eq)]
pub struct IrEnum {
    pub name: String,
    pub visibility: Visibility,
    pub variants: Vec<IrEnumVariant>,
    pub generic_params: Vec<IrGenericParam>,
}

/// A parameter of a function or method.
#[derive(Debug, PartialEq, Eq)]
pub struct IrFunctionParam {
    pub binding_id: BindingId,
    pub name: String,
    /// Absent on a `self` parameter whose type the impl block implies.
    pub ty: Option<ResolvedType>,
}

/// A method signature declared by a trait.
#[derive(Debug, PartialEq, Eq)]
pub struct IrFunctionSig {
    pub name: String,
    pub params: Vec<IrFunctionParam>,
    pub return_type: Option<ResolvedType>,
}

/// A trait definition.
#[derive(Debug, PartialEq, Eq)]
pub struct IrTrait {
    pub name: String,
    pub composed_traits: Vec<TraitId>,
    pub fields: Vec<IrField>,
    pub methods: Vec<IrFunctionSig>,
    pub generic_params: Vec<IrGenericParam>,
}

/// A function or method.
#[derive(Debug, PartialEq, Eq)]
pub struct IrFunction {
    pub name: String,
    pub params: Vec<IrFunctionParam>,
    pub return_type: Option<ResolvedType>,
    pub body: Option<IrExpr>,
    /// Whether the host provides the function.
    pub is_extern: bool,
}

/// The trait an impl block implements.
#[derive(Clone, Copy, Debug, PartialEq, Eq, Structural)]
pub struct IrTraitRef {
    pub trait_id: TraitId,
}

/// The type an impl block applies to.
#[derive(Clone, Copy, Debug, PartialEq, Eq, Structural)]
pub enum ImplTarget {
    Struct(StructId),
    Enum(EnumId),
    Primitive(PrimitiveType),
}

/// An impl block.
#[derive(Debug, PartialEq, Eq)]
pub struct IrImpl {
    pub target: ImplTarget,
    pub trait_ref: Option<IrTraitRef>,
    pub functions: Vec<IrFunction>,
    /// Whether the methods are provided from outside the module.
    pub is_extern: bool,
}

/// A module-level `let`.
#[derive(Debug, PartialEq, Eq)]
pub struct IrLet {
    pub name: String,
    pub ty: ResolvedType,
    pub value: IrExpr,
}

/// A whole module, with the positions of the built-in generic definitions.
#[derive(Debug, PartialEq, Eq)]
pub struct IrModule {
    pub structs: Vec<IrStruct>,
    pub traits: Vec<IrTrait>,
    pub enums: Vec<IrEnum>,
    pub lets: Vec<IrLet>,
    pub functions: Vec<IrFunction>,
    pub impls: Vec<IrImpl>,
    pub prelude_optional: Option<EnumId>,
    pub prelude_array: Option<StructId>,
    pub prelude_range: Option<StructId>,
    pub prelude_dictionary: Option<StructId>,
}

impl IrModule {
    /// The struct stored under `id`, if the table reaches that far.
    pub open spec fn spec_struct(self, id: StructId) -> Option<IrStruct> {
        if id.0 < self.structs@.len() {
            Some(self.structs@[id.0 as int])
        } else {
            None
        }
    }

    /// The enum stored under `id`, if the table reaches that far.
    pub open spec fn spec_enum(self, id: EnumId) -> Option<IrEnum> {
        if id.0 < self.enums@.len() {
            Some(self.enums@[id.0 as int])
        } else {
            None
        }
    }

    /// The trait stored under `id`, if the table reaches that far.
    pub open spec fn spec_trait(self, id: TraitId) -> Option<IrTrait> {
        if id.0 < self.traits@.len() {
            Some(self.traits@[id.0 as int])
        } else {
            None
        }
    }

    /// The function stored under `id`, if the table reaches that far.
    pub open spec fn spec_function(self, id: FunctionId) -> Option<IrFunction> {
        if id.0 < self.functions@.len() {
            Some(self.functions@[id.0 as int])
        } else {
            None
        }
    }

    /// The method `method` of impl block `impl_id`, if both exist.
    pub open spec fn spec_method(self, impl_id: ImplId, method: MethodIdx) -> Option<IrFunction> {
        if impl_id.0 < self.impls@.len() && method.0 < self.impls@[impl_id.0 as int].functions@.len() {
            Some(self.impls@[impl_id.0 as int].functions@[method.0 as int])
        } else {
            None
        }
    }

    /// The signature `method` of trait `trait_id`, if both exist.
    pub open spec fn spec_trait_method(self, trait_id: TraitId, method: MethodIdx) -> Option<
        IrFunctionSig,
    > {
        if trait_id.0 < self.traits@.len() && method.0 < self.traits@[trait_id.0 as int].methods@.len() {
            Some(self.traits@[trait_id.0 as int].methods@[method.0 as int])
        } else {
            None
        }
    }

    /// Look up a struct.
    pub fn get_struct(&self, id: StructId) -> (r: Option<&IrStruct>)
        ensures
            match r {
                Some(s) => self.spec_struct(id) == Some(*s),
                None => self.spec_struct(id) is None,
            },
    {
        if (id.0 as usize) < self.structs.len() {
            Some(&self.structs[id.0 as usize])
        } else {
            None
        }
    }

    /// Look up an enum.
    pub fn get_enum(&self, id: EnumId) -> (r: Option<&IrEnum>)
        ensures
            match r {
                Some(e) => self.spec_enum(id) == Some(*e),
                None => self.spec_enum(id) is None,
            },
    {
        if (id.0 as usize) < self.enums.len() {
            Some(&self.enums[id.0 as usize])
        } else {
            None
        }
    }

    /// Look up a trait.
    pub fn get_trait(&self, id: TraitId) -> (r: Option<&IrTrait>)
        ensures
            match r {
                Some(t) => self.spec_trait(id) == Some(*t),
                None => self.spec_trait(id) is None,
            },
    {
        if (id.0 as usize) < self.traits.len() {
            Some(&self.traits[id.0 as usize])
        } else {
            None
        }
    }

    /// Look up a function.
    pub fn get_function(&self, id: FunctionId) -> (r: Option<&IrFunction>)
        ensures
            match r {
                Some(f) => self.spec_function(id) == Some(*f),
                None => self.spec_function(id) is None,
            },
    {
        if (id.0 as usize) < self.functions.len() {
            Some(&self.functions[id.0 as usize])
        } else {
            None
        }
    }

    /// Look up a method of an impl block.
    pub fn get_method(&self, impl_id: ImplId, method: MethodIdx) -> (r: Option<&IrFunction>)
        ensures
            match r {
                Some(f) => self.spec_method(impl_id, method) == Some(*f),
                None => self.spec_method(impl_id, method) is None,
            },
    {
        if (impl_id.0 as usize) < self.impls.len() {
            let imp = &self.impls[impl_id.0 as usize];
            if (method.0 as usize) < imp.functions.len() {
                return Some(&imp.functions[method.0 as usize]);
            }
        }
        None
    }

    /// Look up a method signature of a trait.
    pub fn get_trait_method(&self, trait_id: TraitId, method: MethodIdx) -> (r: Option<
        &IrFunctionSig,
    >)
        ensures
            match r {
                Some(f) => self.spec_trait_method(trait_id, method) == Some(*f),
                None => self.spec_trait_method(trait_id, method) is None,
            },
    {
        if (trait_id.0 as usize) < self.traits.len() {
            let t = &self.traits[trait_id.0 as usize];
            if (method.0 as usize) < t.methods.len() {
                return Some(&t.methods[method.0 as usize]);
            }
        }
        None
    }
}

} // verus!
