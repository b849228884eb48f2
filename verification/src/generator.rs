use vstd::prelude::*;
use crate::ast::{TypedDataType, TypedFunction};
use crate::builder::{DataTypeKey, FunctionAccessKey};
use crate::id_gen::IdGenerator;
use crate::synth::{synth_state, zero_arg_views, ZeroArgFunction};
use crate::synth_spec::{SynthEnv, SynthState};
use crate::term::Term;
use crate::tipo::{TypeInfo, ValueConstructor};

verus! {

/// Whether every function has a name of its own: no key occurs twice.
pub open spec fn function_keys_distinct(functions: Seq<(FunctionAccessKey, TypedFunction)>) -> bool {
    forall|i: int, j: int|
        0 <= i < j < functions.len() ==> (#[trigger] functions[i]).0@ != (#[trigger] functions[j]).0@
}

/// Whether every data type has a name of its own.
pub open spec fn data_type_keys_distinct(data_types: Seq<(DataTypeKey, TypedDataType)>) -> bool {
    forall|i: int, j: int|
        0 <= i < j < data_types.len() ==> !((#[trigger] data_types[i]).0.module_name@
            == (#[trigger] data_types[j]).0.module_name@ && data_types[i].0.defined_type@
            == data_types[j].0.defined_type@)
}

/// Whether every module has a name of its own.
pub open spec fn module_names_distinct(module_types: Seq<(String, TypeInfo)>) -> bool {
    forall|i: int, j: int|
        0 <= i < j < module_types.len() ==> (#[trigger] module_types[i]).0@
            != (#[trigger] module_types[j]).0@
}

/// Whether every value of a module has a name of its own.
pub open spec fn value_names_distinct(values: Seq<(String, ValueConstructor)>) -> bool {
    forall|i: int, j: int|
        0 <= i < j < values.len() ==> (#[trigger] values[i]).0@ != (#[trigger] values[j]).0@
}

/// Whether in every module every value has a name of its own.
pub open spec fn module_values_distinct(module_types: Seq<(String, TypeInfo)>) -> bool {
    forall|m: int|
        0 <= m < module_types.len() ==> value_names_distinct((#[trigger] module_types[m]).1.values@)
}

/// Whether the tables that a generator reads are maps: each of them holds
/// a key at most once.
pub open spec fn tables_distinct(
    functions: Seq<(FunctionAccessKey, TypedFunction)>,
    data_types: Seq<(DataTypeKey, TypedDataType)>,
    module_types: Seq<(String, TypeInfo)>,
) -> bool {
    function_keys_distinct(functions) && data_type_keys_distinct(data_types)
        && module_names_distinct(module_types) && module_values_distinct(module_types)
}

/// Whether no key occurs twice among the functions.
pub fn functions_are_distinct(functions: &Vec<(FunctionAccessKey, TypedFunction)>) -> (r: bool)
    ensures
        r == function_keys_distinct(functions@),
{
    let mut j: usize = 0;
    while j < functions.len()
        invariant
            j <= functions.len(),
            forall|a: int, b: int|
                0 <= a < b < j ==> (#[trigger] functions@[a]).0@ != (#[trigger] functions@[b]).0@,
        decreases functions.len() - j,
    {
        let mut i: usize = 0;
        while i < j
            invariant
                i <= j < functions.len(),
                forall|a: int| 0 <= a < i ==> (#[trigger] functions@[a]).0@ != functions@[j as int].0@,
            decreases j - i,
        {
            if functions[i].0.same(&functions[j].0) {
                return false;
            }
            i = i + 1;
        }
        j = j + 1;
    }
    true
}

/// Whether no name occurs twice among the data types.
pub fn data_types_are_distinct(data_types: &Vec<(DataTypeKey, TypedDataType)>) -> (r: bool)
    ensures
        r == data_type_keys_distinct(data_types@),
{
    let mut j: usize = 0;
    while j < data_types.len()
        invariant
            j <= data_types.len(),
            forall|a: int, b: int|
                0 <= a < b < j ==> !((#[trigger] data_types@[a]).0.module_name@
                    == (#[trigger] data_types@[b]).0.module_name@ && data_types@[a].0.defined_type@
                    == data_types@[b].0.defined_type@),
        decreases data_types.len() - j,
    {
        let mut i: usize = 0;
        while i < j
            invariant
                i <= j < data_types.len(),
                forall|a: int|
                    0 <= a < i ==> !((#[trigger] data_types@[a]).0.module_name@
                        == data_types@[j as int].0.module_name@ && data_types@[a].0.defined_type@
                        == data_types@[j as int].0.defined_type@),
            decreases j - i,
        {
            if data_types[i].0.module_name == data_types[j].0.module_name
                && data_types[i].0.defined_type == data_types[j].0.defined_type {
                return false;
            }
            i = i + 1;
        }
        j = j + 1;
    }
    true
}

/// Whether no name occurs twice among the modules.
pub fn modules_are_distinct(module_types: &Vec<(String, TypeInfo)>) -> (r: bool)
    ensures
        r == module_names_distinct(module_types@),
{
    let mut j: usize = 0;
    while j < module_types.len()
        invariant
            j <= module_types.len(),
            forall|a: int, b: int|
                0 <= a < b < j ==> (#[trigger] module_types@[a]).0@ != (#[trigger] module_types@[b]).0@,
        decreases module_types.len() - j,
    {
        let mut i: usize = 0;
        while i < j
            invariant
                i <= j < module_types.len(),
                forall|a: int|
                    0 <= a < i ==> (#[trigger] module_types@[a]).0@ != module_types@[j as int].0@,
            decreases j - i,
        {
            if module_types[i].0 == module_types[j].0 {
                return false;
            }
            i = i + 1;
        }
        j = j + 1;
    }
    true
}

/// Whether no name occurs twice among the values of a module.
pub fn values_are_distinct(values: &Vec<(String, ValueConstructor)>) -> (r: bool)
    ensures
        r == value_names_distinct(values@),
{
    let mut j: usize = 0;
    while j < values.len()
        invariant
            j <= values.len(),
            forall|a: int, b: int|
                0 <= a < b < j ==> (#[trigger] values@[a]).0@ != (#[trigger] values@[b]).0@,
        decreases values.len() - j,
    {
        let mut i: usize = 0;
        while i < j
            invariant
                i <= j < values.len(),
                forall|a: int| 0 <= a < i ==> (#[trigger] values@[a]).0@ != values@[j as int].0@,
            decreases j - i,
        {
            if values[i].0 == values[j].0 {
                return false;
            }
            i = i + 1;
        }
        j = j + 1;
    }
    true
}

/// Whether in no module a name occurs twice among the values.
pub fn module_values_are_distinct(module_types: &Vec<(String, TypeInfo)>) -> (r: bool)
    ensures
        r == module_values_distinct(module_types@),
{
    let mut m: usize = 0;
    while m < module_types.len()
        invariant
            m <= module_types.len(),
            forall|a: int|
                0 <= a < m ==> value_names_distinct((#[trigger] module_types@[a]).1.values@),
        decreases module_types.len() - m,
    {
        if !values_are_distinct(&module_types[m].1.values) {
            return false;
        }
        m = m + 1;
    }
    true
}

/// The code generator. It reads the functions, data types and modules that
/// type inference produced and never changes them; what it keeps of its own are
/// the functions it has defined so far, the functions without parameters
/// with their values, a source of fresh identifiers, and whether the program
/// reads fields. The three tables are maps: a generator is made of tables
/// that hold each key once, and never changes them.
pub struct CodeGenerator<'a> {
    pub defined_functions: Vec<FunctionAccessKey>,
    pub functions: &'a Vec<(FunctionAccessKey, TypedFunction)>,
    pub data_types: &'a Vec<(DataTypeKey, TypedDataType)>,
    pub module_types: &'a Vec<(String, TypeInfo)>,
    pub id_gen: IdGenerator,
    pub needs_field_access: bool,
    pub zero_arg_functions: Vec<ZeroArgFunction>,
}

impl<'a> CodeGenerator<'a> {
    /// Whether the tables of the generator hold each key once.
    pub open spec fn well_formed(&self) -> bool {
        tables_distinct(self.functions@, self.data_types@, self.module_types@)
    }

    /// A generator that has defined nothing and handed out no identifier.
    /// Its tables are maps: they hold each key once.
    pub fn new(
        functions: &'a Vec<(FunctionAccessKey, TypedFunction)>,
        data_types: &'a Vec<(DataTypeKey, TypedDataType)>,
        module_types: &'a Vec<(String, TypeInfo)>,
    ) -> (r: Self)
        requires
            tables_distinct(functions@, data_types@, module_types@),
        ensures
            r.well_formed(),
            r.defined_functions@.len() == 0,
            r.zero_arg_functions@.len() == 0,
            r.functions == functions,
            r.data_types == data_types,
            r.module_types == module_types,
            r.id_gen.peek() == 0,
            !r.needs_field_access,
    {
        CodeGenerator {
            defined_functions: Vec::new(),
            functions,
            data_types,
            module_types,
            id_gen: IdGenerator::new(),
            needs_field_access: false,
            zero_arg_functions: Vec::new(),
        }
    }

    /// A generator over the given tables, where they hold each key once;
    /// none where a key occurs twice.
    pub fn checked(
        functions: &'a Vec<(FunctionAccessKey, TypedFunction)>,
        data_types: &'a Vec<(DataTypeKey, TypedDataType)>,
        module_types: &'a Vec<(String, TypeInfo)>,
    ) -> (r: Option<Self>)
        ensures
            r.is_some() == tables_distinct(functions@, data_types@, module_types@),
            match r {
                Some(g) => g.well_formed() && g.defined_functions@.len() == 0
                    && g.zero_arg_functions@.len() == 0 && g.functions == functions && g.data_types
                    == data_types && g.module_types == module_types && g.id_gen.peek() == 0
                    && !g.needs_field_access,
                None => true,
            },
    {
        if functions_are_distinct(functions) && data_types_are_distinct(data_types)
            && modules_are_distinct(module_types) && module_values_are_distinct(module_types) {
            Some(CodeGenerator::new(functions, data_types, module_types))
        } else {
            None
        }
    }

    /// What the synthesizer reads of the generator and does not change.
    pub open spec fn synth_env(&self) -> SynthEnv {
        SynthEnv {
            data_types: self.data_types@,
            zero_arg: zero_arg_views(self.zero_arg_functions@),
        }
    }

    /// The synthesizer's state with the given operand stack.
    pub open spec fn synth_state(&self, stack: Seq<Term>) -> SynthState {
        synth_state(stack, self.id_gen.peek(), self.needs_field_access)
    }

    /// Whether another generator differs from this one in nothing but the
    /// next identifier and the flag for field access.
    pub open spec fn same_tables(&self, other: &Self) -> bool {
        &&& self.defined_functions == other.defined_functions
        &&& self.functions == other.functions
        &&& self.data_types == other.data_types
        &&& self.module_types == other.module_types
        &&& self.zero_arg_functions == other.zero_arg_functions
    }

    /// A generator that reads the same tables is well formed where this
    /// one is: the tables never change.
    pub proof fn lemma_tables_stay_distinct(&self, other: &Self)
        requires
            self.well_formed(),
            self.functions == other.functions,
            self.data_types == other.data_types,
            self.module_types == other.module_types,
        ensures
            other.well_formed(),
    {
    }
}

} // verus!
