//! Plan-side descriptions the engine consumes: scalar expressions of the
//! physical plan, and sort orderings.
//!
//! A physical scalar is the desugared, serializable form of an expression:
//! a variable by index, a constant, a function application, or a cast. Its
//! renderings — the generated column name and the readable display — are
//! verified against recursive specifications of the exact text.

use vstd::prelude::*;
use crate::decimal::{spec_decimal, u64_to_string};

verus! {

/// A constant value of the plan.
#[derive(Debug, Clone, PartialEq, Eq)]
pub enum DataValue {
    Null,
    Boolean(bool),
    Int64(i64),
    Utf8(String),
}

/// A scalar type of the plan.
#[derive(Debug, Clone, Copy, PartialEq, Eq, Structural)]
pub enum DataTypeImpl {
    Null,
    Boolean,
    Int64,
    Utf8,
}

/// The SQL name of a scalar type.
pub open spec fn spec_type_sql(t: DataTypeImpl) -> Seq<char> {
    match t {
        DataTypeImpl::Null => "NULL"@,
        DataTypeImpl::Boolean => "BOOLEAN"@,
        DataTypeImpl::Int64 => "BIGINT"@,
        DataTypeImpl::Utf8 => "VARCHAR"@,
    }
}

/// Renders the SQL name of a scalar type.
pub fn type_sql_name(t: DataTypeImpl) -> (r: String)
    ensures
        r@ == spec_type_sql(t),
{
    match t {
        DataTypeImpl::Null => String::from_str("NULL"),
        DataTypeImpl::Boolean => String::from_str("BOOLEAN"),
        DataTypeImpl::Int64 => String::from_str("BIGINT"),
        DataTypeImpl::Utf8 => String::from_str("VARCHAR"),
    }
}

/// The decimal text of a signed integer.
pub open spec fn spec_i64_decimal(n: int) -> Seq<char> {
    if n >= 0 {
        spec_decimal(n as nat)
    } else {
        "-"@ + spec_decimal((-n) as nat)
    }
}

/// Renders a signed integer in decimal.
pub fn i64_to_string(n: i64) -> (r: String)
    ensures
        r@ == spec_i64_decimal(n as int),
{
    if n >= 0 {
        u64_to_string(n as u64)
    } else {
        let mut s = String::from_str("-");
        let magnitude = ((-(n + 1)) as u64) + 1;
        proof {
            assert(magnitude == -(n as int));
        }
        let d = u64_to_string(magnitude);
        s.append(d.as_str());
        proof {
            assert(s@ =~= spec_i64_decimal(n as int));
        }
        s
    }
}

/// The SQL text of a constant value.
pub open spec fn spec_value_sql(v: DataValue) -> Seq<char> {
    match v {
        DataValue::Null => "NULL"@,
        DataValue::Boolean(b) => if b {
            "true"@
        } else {
            "false"@
        },
        DataValue::Int64(n) => spec_i64_decimal(n as int),
        DataValue::Utf8(s) => "'"@ + s@ + "'"@,
    }
}

/// Renders a constant value as SQL text.
pub fn value_sql(v: &DataValue) -> (r: String)
    ensures
        r@ == spec_value_sql(*v),
{
    match v {
        DataValue::Null => String::from_str("NULL"),
        DataValue::Boolean(b) => {
            if *b {
                String::from_str("true")
            } else {
                String::from_str("false")
            }
        }
        DataValue::Int64(n) => i64_to_string(*n),
        DataValue::Utf8(s) => {
            let mut out = String::from_str("'");
            out.append(s.as_str());
            out.append("'");
            proof {
                assert(out@ =~= spec_value_sql(*v));
            }
            out
        }
    }
}

/// One projected column of the plan: a name and a scalar type.
#[derive(Debug, Clone, PartialEq, Eq)]
pub struct PlanField {
    pub name: String,
    pub data_type: DataTypeImpl,
}

/// The serializable, desugared form of a scalar expression.
#[derive(Debug, PartialEq, Eq)]
pub enum PhysicalScalar {
    IndexedVariable { index: usize, data_type: DataTypeImpl, display_name: String },
    Constant { value: DataValue, data_type: DataTypeImpl },
    Function { name: String, args: Vec<PhysicalScalar>, return_type: DataTypeImpl },
    Cast { input: Box<PhysicalScalar>, target: DataTypeImpl },
}

/// The generated column name of a scalar: the display name of a variable,
/// the SQL text of a constant, `name(arg, ...)` for a function, and
/// `input::TYPE` for a cast.
pub open spec fn spec_column_name(s: PhysicalScalar) -> Seq<char>
    decreases s,
{
    match s {
        PhysicalScalar::IndexedVariable { display_name, .. } => display_name@,
        PhysicalScalar::Constant { value, .. } => spec_value_sql(value),
        PhysicalScalar::Function { name, args, .. } => name@ + "("@ + spec_joined_names(args@)
            + ")"@,
        PhysicalScalar::Cast { input, target } => spec_column_name(*input) + "::"@
            + spec_type_sql(target),
    }
}

/// The column names of the arguments, joined by a comma and a space.
pub open spec fn spec_joined_names(args: Seq<PhysicalScalar>) -> Seq<char>
    decreases args, args.len(),
{
    if args.len() == 0 {
        Seq::<char>::empty()
    } else {
        spec_joined_names(args.drop_last()) + (if args.len() > 1 {
            ", "@
        } else {
            Seq::<char>::empty()
        }) + spec_column_name(args.last())
    }
}

impl PhysicalScalar {
    /// The type of the value the scalar evaluates to.
    pub fn data_type(&self) -> (r: DataTypeImpl)
        ensures
            r == (match *self {
                PhysicalScalar::Constant { data_type, .. } => data_type,
                PhysicalScalar::Function { return_type, .. } => return_type,
                PhysicalScalar::Cast { target, .. } => target,
                PhysicalScalar::IndexedVariable { data_type, .. } => data_type,
            }),
    {
        match self {
            PhysicalScalar::Constant { data_type, .. } => *data_type,
            PhysicalScalar::Function { return_type, .. } => *return_type,
            PhysicalScalar::Cast { target, .. } => *target,
            PhysicalScalar::IndexedVariable { data_type, .. } => *data_type,
        }
    }

    /// The generated column name of the scalar.
    pub fn column_name(&self) -> (r: String)
        ensures
            r@ == spec_column_name(*self),
        decreases *self,
    {
        match self {
            PhysicalScalar::IndexedVariable { display_name, .. } => display_name.clone(),
            PhysicalScalar::Constant { value, .. } => value_sql(value),
            PhysicalScalar::Function { name, args, .. } => {
                let mut out = name.clone();
                out.append("(");
                let n = args.len();
                let mut i: usize = 0;
                proof {
                    assert(args@.take(0) =~= Seq::<PhysicalScalar>::empty());
                    assert(out@ =~= name@ + "("@ + spec_joined_names(args@.take(0)));
                }
                while i < n
                    invariant
                        i <= n,
                        n == args@.len(),
                        *self is Function,
                        self->Function_args == *args,
                        out@ == name@ + "("@ + spec_joined_names(args@.take(i as int)),
                    decreases n - i,
                {
                    if i > 0 {
                        out.append(", ");
                    }
                    proof {
                        assert(decreases_to!(*self => self->Function_args));
                        assert(decreases_to!(self->Function_args => self->Function_args@[
                            i as int
                        ]));
                    }
                    let arg_name = args[i].column_name();
                    out.append(arg_name.as_str());
                    proof {
                        assert(args@.take(i + 1).drop_last() =~= args@.take(i as int));
                        assert(args@.take(i + 1).last() == args@[i as int]);
                        assert(out@ =~= name@ + "("@ + spec_joined_names(args@.take(i + 1)));
                    }
                    i = i + 1;
                }
                out.append(")");
                proof {
                    assert(args@.take(n as int) =~= args@);
                    assert(out@ =~= spec_column_name(*self));
                }
                out
            }
            PhysicalScalar::Cast { input, target } => {
                let mut out = input.column_name();
                out.append("::");
                let t = type_sql_name(*target);
                out.append(t.as_str());
                proof {
                    assert(out@ =~= spec_column_name(*self));
                }
                out
            }
        }
    }

    /// The field a scalar projects to: its column name and its type.
    pub fn to_data_field(&self) -> (r: PlanField)
        ensures
            r.name@ == spec_column_name(*self),
            r.data_type == (match *self {
                PhysicalScalar::Constant { data_type, .. } => data_type,
                PhysicalScalar::Function { return_type, .. } => return_type,
                PhysicalScalar::Cast { target, .. } => target,
                PhysicalScalar::IndexedVariable { data_type, .. } => data_type,
            }),
    {
        let name = self.column_name();
        let data_type = self.data_type();
        PlanField { name, data_type }
    }
}

/// How one column orders a sort.
#[derive(Debug, Clone, PartialEq, Eq)]
pub struct SortDesc {
    /// Ascending rather than descending.
    pub asc: bool,
    /// Whether nulls sort before every value.
    pub nulls_first: bool,
    /// The column the ordering reads.
    pub order_by: String,
}

impl SortDesc {
    /// A sort description for one column.
    pub fn new(asc: bool, nulls_first: bool, order_by: String) -> (r: SortDesc)
        ensures
            r.asc == asc,
            r.nulls_first == nulls_first,
            r.order_by == order_by,
    {
        SortDesc { asc, nulls_first, order_by }
    }
}


/// The readable text of a constant: like its SQL text, but a string is
/// shown bare.
pub open spec fn spec_value_display(v: DataValue) -> Seq<char> {
    match v {
        DataValue::Null => "NULL"@,
        DataValue::Boolean(b) => if b {
            "true"@
        } else {
            "false"@
        },
        DataValue::Int64(n) => spec_i64_decimal(n as int),
        DataValue::Utf8(s) => s@,
    }
}

/// Renders the readable text of a constant value.
pub fn value_display(v: &DataValue) -> (r: String)
    ensures
        r@ == spec_value_display(*v),
{
    match v {
        DataValue::Null => String::from_str("NULL"),
        DataValue::Boolean(b) => {
            if *b {
                String::from_str("true")
            } else {
                String::from_str("false")
            }
        }
        DataValue::Int64(n) => i64_to_string(*n),
        DataValue::Utf8(s) => s.clone(),
    }
}

/// The readable display of a scalar, with variables under their display
/// names and casts written `CAST(input AS TYPE)`.
pub open spec fn spec_pretty(s: PhysicalScalar) -> Seq<char>
    decreases s,
{
    match s {
        PhysicalScalar::IndexedVariable { display_name, .. } => display_name@,
        PhysicalScalar::Constant { value, .. } => spec_value_display(value),
        PhysicalScalar::Function { name, args, .. } => name@ + "("@ + spec_joined_pretty(args@)
            + ")"@,
        PhysicalScalar::Cast { input, target } => "CAST("@ + spec_pretty(*input) + " AS "@
            + spec_type_sql(target) + ")"@,
    }
}

/// The readable displays of the arguments, joined by a comma and a space.
pub open spec fn spec_joined_pretty(args: Seq<PhysicalScalar>) -> Seq<char>
    decreases args, args.len(),
{
    if args.len() == 0 {
        Seq::<char>::empty()
    } else {
        spec_joined_pretty(args.drop_last()) + (if args.len() > 1 {
            ", "@
        } else {
            Seq::<char>::empty()
        }) + spec_pretty(args.last())
    }
}

impl PhysicalScalar {
    /// The readable display of the scalar, with variables under their
    /// display names.
    pub fn pretty_display(&self) -> (r: String)
        ensures
            r@ == spec_pretty(*self),
        decreases *self,
    {
        match self {
            PhysicalScalar::IndexedVariable { display_name, .. } => display_name.clone(),
            PhysicalScalar::Constant { value, .. } => value_display(value),
            PhysicalScalar::Function { name, args, .. } => {
                let mut out = name.clone();
                out.append("(");
                let n = args.len();
                let mut i: usize = 0;
                proof {
                    assert(args@.take(0) =~= Seq::<PhysicalScalar>::empty());
                    assert(out@ =~= name@ + "("@ + spec_joined_pretty(args@.take(0)));
                }
                while i < n
                    invariant
                        i <= n,
                        n == args@.len(),
                        *self is Function,
                        self->Function_args == *args,
                        out@ == name@ + "("@ + spec_joined_pretty(args@.take(i as int)),
                    decreases n - i,
                {
                    if i > 0 {
                        out.append(", ");
                    }
                    proof {
                        assert(decreases_to!(*self => self->Function_args));
                        assert(decreases_to!(self->Function_args => self->Function_args@[
                            i as int
                        ]));
                    }
                    let arg_text = args[i].pretty_display();
                    out.append(arg_text.as_str());
                    proof {
                        assert(args@.take(i + 1).drop_last() =~= args@.take(i as int));
                        assert(args@.take(i + 1).last() == args@[i as int]);
                        assert(out@ =~= name@ + "("@ + spec_joined_pretty(args@.take(i + 1)));
                    }
                    i = i + 1;
                }
                out.append(")");
                proof {
                    assert(args@.take(n as int) =~= args@);
                    assert(out@ =~= spec_pretty(*self));
                }
                out
            }
            PhysicalScalar::Cast { input, target } => {
                let mut out = String::from_str("CAST(");
                let inner = input.pretty_display();
                out.append(inner.as_str());
                out.append(" AS ");
                let t = type_sql_name(*target);
                out.append(t.as_str());
                out.append(")");
                proof {
                    assert(out@ =~= spec_pretty(*self));
                }
                out
            }
        }
    }

    /// The terse display of the scalar, with variables written by index,
    /// `$i`.
    pub fn display_string(&self) -> (r: String)
        ensures
            r@ == spec_terse(*self),
        decreases *self,
    {
        match self {
            PhysicalScalar::IndexedVariable { index, .. } => {
                let mut out = String::from_str("$");
                let d = u64_to_string(*index as u64);
                out.append(d.as_str());
                proof {
                    assert(out@ =~= spec_terse(*self));
                }
                out
            }
            PhysicalScalar::Constant { value, .. } => value_display(value),
            PhysicalScalar::Function { name, args, .. } => {
                let mut out = name.clone();
                out.append("(");
                let n = args.len();
                let mut i: usize = 0;
                proof {
                    assert(args@.take(0) =~= Seq::<PhysicalScalar>::empty());
                    assert(out@ =~= name@ + "("@ + spec_joined_terse(args@.take(0)));
                }
                while i < n
                    invariant
                        i <= n,
                        n == args@.len(),
                        *self is Function,
                        self->Function_args == *args,
                        out@ == name@ + "("@ + spec_joined_terse(args@.take(i as int)),
                    decreases n - i,
                {
                    if i > 0 {
                        out.append(", ");
                    }
                    proof {
                        assert(decreases_to!(*self => self->Function_args));
                        assert(decreases_to!(self->Function_args => self->Function_args@[
                            i as int
                        ]));
                    }
                    let arg_text = args[i].display_string();
                    out.append(arg_text.as_str());
                    proof {
                        assert(args@.take(i + 1).drop_last() =~= args@.take(i as int));
                        assert(args@.take(i + 1).last() == args@[i as int]);
                        assert(out@ =~= name@ + "("@ + spec_joined_terse(args@.take(i + 1)));
                    }
                    i = i + 1;
                }
                out.append(")");
                proof {
                    assert(args@.take(n as int) =~= args@);
                    assert(out@ =~= spec_terse(*self));
                }
                out
            }
            PhysicalScalar::Cast { input, target } => {
                let mut out = String::from_str("CAST(");
                let inner = input.display_string();
                out.append(inner.as_str());
                out.append(" AS ");
                let t = type_sql_name(*target);
                out.append(t.as_str());
                out.append(")");
                proof {
                    assert(out@ =~= spec_terse(*self));
                }
                out
            }
        }
    }
}

/// The terse display of a scalar, with variables written by index.
pub open spec fn spec_terse(s: PhysicalScalar) -> Seq<char>
    decreases s,
{
    match s {
        PhysicalScalar::IndexedVariable { index, .. } => "$"@ + spec_decimal(index as nat),
        PhysicalScalar::Constant { value, .. } => spec_value_display(value),
        PhysicalScalar::Function { name, args, .. } => name@ + "("@ + spec_joined_terse(args@)
            + ")"@,
        PhysicalScalar::Cast { input, target } => "CAST("@ + spec_terse(*input) + " AS "@
            + spec_type_sql(target) + ")"@,
    }
}

/// The terse displays of the arguments, joined by a comma and a space.
pub open spec fn spec_joined_terse(args: Seq<PhysicalScalar>) -> Seq<char>
    decreases args, args.len(),
{
    if args.len() == 0 {
        Seq::<char>::empty()
    } else {
        spec_joined_terse(args.drop_last()) + (if args.len() > 1 {
            ", "@
        } else {
            Seq::<char>::empty()
        }) + spec_terse(args.last())
    }
}

/// The signature of an aggregate function instance.
#[derive(Debug, Clone, PartialEq, Eq)]
pub struct AggregateFunctionSignature {
    pub name: String,
    pub args: Vec<DataTypeImpl>,
    pub params: Vec<DataValue>,
    pub return_type: DataTypeImpl,
}

/// An aggregate function of the plan: its signature, the column it
/// produces, and the argument columns it reads.
#[derive(Debug, Clone, PartialEq, Eq)]
pub struct AggregateFunctionDesc {
    pub sig: AggregateFunctionSignature,
    pub column_id: String,
    pub args: Vec<usize>,
    /// Only used for debugging.
    pub arg_indices: Vec<usize>,
}
} // verus!
