use vstd::prelude::*;
use crate::air::{clone_indices, index_views};
use crate::ast::{Pattern, TypedDataType};
use crate::error::Halt;
use crate::tipo::{Type, TypeView};
use crate::search::{first_position, lemma_first_position_is, lemma_first_position_none};

verus! {

/// The name of a data type: its module and its own name.
#[derive(Debug, PartialEq, Eq)]
pub struct DataTypeKey {
    pub module_name: String,
    pub defined_type: String,
}

/// The name of a function: its module, its own name, and the variant. The
/// empty variant names the function as written; another one names it as
/// specialised to concrete types.
#[derive(Debug, PartialEq, Eq)]
pub struct FunctionAccessKey {
    pub module_name: String,
    pub function_name: String,
    pub variant_name: String,
}

pub ghost struct KeyView {
    pub module_name: Seq<char>,
    pub function_name: Seq<char>,
    pub variant_name: Seq<char>,
}

impl View for FunctionAccessKey {
    type V = KeyView;

    open spec fn view(&self) -> KeyView {
        KeyView {
            module_name: self.module_name@,
            function_name: self.function_name@,
            variant_name: self.variant_name@,
        }
    }
}

/// The views of a list of function names, one for one.
pub open spec fn key_views(items: Seq<FunctionAccessKey>) -> Seq<KeyView> {
    Seq::new(items.len(), |i: int| items[i]@)
}

impl FunctionAccessKey {
    pub fn duplicate(&self) -> (r: FunctionAccessKey)
        ensures
            r@ == self@,
    {
        FunctionAccessKey {
            module_name: self.module_name.clone(),
            function_name: self.function_name.clone(),
            variant_name: self.variant_name.clone(),
        }
    }

    /// Whether two keys name the same function.
    pub fn same(&self, other: &FunctionAccessKey) -> (r: bool)
        ensures
            r == (self@ == other@),
    {
        self.module_name == other.module_name && self.function_name == other.function_name
            && self.variant_name == other.variant_name
    }
}

/// The data types that the generator knows, by name.
pub open spec fn data_type_position(
    data_types: Seq<(DataTypeKey, TypedDataType)>,
    module: Seq<char>,
    name: Seq<char>,
) -> Option<int> {
    first_position(
        data_types,
        |entry: (DataTypeKey, TypedDataType)|
            entry.0.module_name@ == module && entry.0.defined_type@ == name,
    )
}

/// The first data type of the given name.
pub fn find_data_type<'a>(
    data_types: &'a Vec<(DataTypeKey, TypedDataType)>,
    module: &String,
    name: &String,
) -> (r: Option<&'a TypedDataType>)
    ensures
        match r {
            Some(dt) => match data_type_position(data_types@, module@, name@) {
                Some(i) => 0 <= i < data_types@.len() && data_types@[i].1 == *dt,
                None => false,
            },
            None => data_type_position(data_types@, module@, name@).is_none(),
        },
{
    let ghost wanted = |entry: (DataTypeKey, TypedDataType)|
        entry.0.module_name@ == module@ && entry.0.defined_type@ == name@;
    let mut i: usize = 0;
    while i < data_types.len()
        invariant
            i <= data_types.len(),
            wanted == |entry: (DataTypeKey, TypedDataType)|
                entry.0.module_name@ == module@ && entry.0.defined_type@ == name@,
            forall|j: int| 0 <= j < i ==> !wanted(#[trigger] data_types@[j]),
        decreases data_types.len() - i,
    {
        if data_types[i].0.module_name == *module && data_types[i].0.defined_type == *name {
            proof {
                lemma_first_position_is(data_types@, wanted, i as int);
            }
            return Some(&data_types[i].1);
        }
        i = i + 1;
    }
    proof {
        lemma_first_position_none(data_types@, wanted);
    }
    None
}

/// Which kind of subject a match has, with what is kept for that kind.
#[derive(Debug, PartialEq, Eq)]
pub enum ClauseKind {
    /// The subject is compared by equality, or is a constructor value.
    ConstrClause,
    /// The subject is a list. `current_index` counts the clauses taken.
    ListClause { current_index: usize },
    /// The subject is a tuple. `defined_tuple_indices` holds the positions
    /// that earlier clauses have bound, each with its name; no position
    /// occurs twice.
    TupleClause { defined_tuple_indices: Vec<(usize, String)> },
}

/// What the lowering of one match keeps track of, clause by clause.
#[derive(Debug, PartialEq, Eq)]
pub struct ClauseProperties {
    /// The name under which the whole subject is bound.
    pub clause_var_name: String,
    /// Whether a clause needs the whole subject, not only its tag.
    pub needs_constr_var: bool,
    /// Whether the clause at hand needs the clauses after it delayed.
    pub is_complex_clause: bool,
    /// The name under which the subject is compared.
    pub original_subject_name: String,
    pub kind: ClauseKind,
}

/// Which kind of subject a match has.
pub ghost enum SubjectKind {
    Constr,
    List { current_index: usize },
    Tuple { defined_tuple_indices: Seq<(usize, Seq<char>)> },
}

pub ghost struct PropsView {
    pub clause_var_name: Seq<char>,
    pub needs_constr_var: bool,
    pub is_complex_clause: bool,
    pub original_subject_name: Seq<char>,
    pub kind: SubjectKind,
}

impl View for ClauseProperties {
    type V = PropsView;

    open spec fn view(&self) -> PropsView {
        PropsView {
            clause_var_name: self.clause_var_name@,
            needs_constr_var: self.needs_constr_var,
            is_complex_clause: self.is_complex_clause,
            original_subject_name: self.original_subject_name@,
            kind: match self.kind {
                ClauseKind::ConstrClause => SubjectKind::Constr,
                ClauseKind::ListClause { current_index } => SubjectKind::List { current_index },
                ClauseKind::TupleClause { defined_tuple_indices } => SubjectKind::Tuple {
                    defined_tuple_indices: index_views(defined_tuple_indices@),
                },
            },
        }
    }
}

impl PropsView {
    /// The properties at the start of a match on a subject of the given
    /// type.
    pub open spec fn init(
        tipo: TypeView,
        constr_var: Seq<char>,
        subject_name: Seq<char>,
    ) -> PropsView {
        PropsView {
            clause_var_name: constr_var,
            needs_constr_var: false,
            is_complex_clause: false,
            original_subject_name: subject_name,
            kind: if tipo.is_list() {
                SubjectKind::List { current_index: 0 }
            } else if tipo.is_tuple() {
                SubjectKind::Tuple { defined_tuple_indices: Seq::empty() }
            } else {
                SubjectKind::Constr
            },
        }
    }

    /// What a pattern inside a clause's pattern asks for: a variable needs
    /// the whole subject; a list, a constructor or a tuple also makes the
    /// clause complex; a discard asks for nothing.
    pub open spec fn with_needs_of(self, pattern: Pattern) -> Result<PropsView, Halt> {
        match pattern {
            Pattern::Var { .. } => Ok(PropsView { needs_constr_var: true, ..self }),
            Pattern::List { .. } | Pattern::Constructor { .. } | Pattern::Tuple { .. } => Ok(
                PropsView { needs_constr_var: true, is_complex_clause: true, ..self },
            ),
            Pattern::Discard { .. } => Ok(self),
            _ => Err(Halt::Unsupported),
        }
    }
}

impl ClauseProperties {
    pub fn init(tipo: &Type, constr_var: String, subject_name: String) -> (r: ClauseProperties)
        ensures
            r@ == PropsView::init(tipo@, constr_var@, subject_name@),
    {
        let kind = if tipo.is_list() {
            ClauseKind::ListClause { current_index: 0 }
        } else if tipo.is_tuple() {
            let items: Vec<(usize, String)> = Vec::new();
            assert(index_views(items@) =~= Seq::empty());
            ClauseKind::TupleClause { defined_tuple_indices: items }
        } else {
            ClauseKind::ConstrClause
        };
        ClauseProperties {
            clause_var_name: constr_var,
            needs_constr_var: false,
            is_complex_clause: false,
            original_subject_name: subject_name,
            kind,
        }
    }

    pub fn duplicate(&self) -> (r: ClauseProperties)
        ensures
            r@ == self@,
    {
        ClauseProperties {
            clause_var_name: self.clause_var_name.clone(),
            needs_constr_var: self.needs_constr_var,
            is_complex_clause: self.is_complex_clause,
            original_subject_name: self.original_subject_name.clone(),
            kind: match &self.kind {
                ClauseKind::ConstrClause => ClauseKind::ConstrClause,
                ClauseKind::ListClause { current_index } => ClauseKind::ListClause {
                    current_index: *current_index,
                },
                ClauseKind::TupleClause { defined_tuple_indices } => ClauseKind::TupleClause {
                    defined_tuple_indices: clone_indices(defined_tuple_indices),
                },
            },
        }
    }
}

/// Records in the properties of a clause what a pattern inside the clause's
/// pattern asks for.
pub fn check_when_pattern_needs(pattern: &Pattern, clause_properties: &mut ClauseProperties) -> (r:
    Result<(), Halt>)
    ensures
        match r {
            Ok(()) => old(clause_properties)@.with_needs_of(*pattern) == Ok::<PropsView, Halt>(
                final(clause_properties)@,
            ),
            Err(e) => old(clause_properties)@.with_needs_of(*pattern) == Err::<PropsView, Halt>(e),
        },
{
    match pattern {
        Pattern::Var { .. } => {
            clause_properties.needs_constr_var = true;
            Ok(())
        },
        Pattern::List { .. } | Pattern::Constructor { .. } | Pattern::Tuple { .. } => {
            clause_properties.needs_constr_var = true;
            clause_properties.is_complex_clause = true;
            Ok(())
        },
        Pattern::Discard { .. } => Ok(()),
        _ => Err(Halt::Unsupported),
    }
}

/// The longest list of identifiers that both scopes start with.
pub open spec fn common_ancestor(a: Seq<u64>, b: Seq<u64>) -> Seq<u64>
    decreases a.len(),
{
    if a.len() == 0 || b.len() == 0 || a[0] != b[0] {
        Seq::empty()
    } else {
        seq![a[0]] + common_ancestor(a.drop_first(), b.drop_first())
    }
}

/// The scope that encloses both scopes and is enclosed by every other
/// scope that does.
pub fn get_common_ancestor(scope: &Vec<u64>, scope_prev: &Vec<u64>) -> (r: Vec<u64>)
    ensures
        r@ == common_ancestor(scope@, scope_prev@),
{
    let mut out: Vec<u64> = Vec::new();
    let mut i: usize = 0;
    proof {
        assert(scope@.skip(0) =~= scope@);
        assert(scope_prev@.skip(0) =~= scope_prev@);
        assert(out@ + common_ancestor(scope@, scope_prev@) =~= common_ancestor(
            scope@,
            scope_prev@,
        ));
        assert(scope@.take(0) =~= scope_prev@.take(0));
    }
    while i < scope.len() && i < scope_prev.len() && scope[i] == scope_prev[i]
        invariant
            i <= scope.len(),
            i <= scope_prev.len(),
            out@ == scope@.take(i as int),
            scope@.take(i as int) == scope_prev@.take(i as int),
            common_ancestor(scope@, scope_prev@) == out@ + common_ancestor(
                scope@.skip(i as int),
                scope_prev@.skip(i as int),
            ),
        decreases scope.len() - i,
    {
        proof {
            let a = scope@.skip(i as int);
            let b = scope_prev@.skip(i as int);
            assert(a.drop_first() =~= scope@.skip(i as int + 1));
            assert(b.drop_first() =~= scope_prev@.skip(i as int + 1));
            assert(out@ + (seq![a[0]] + common_ancestor(a.drop_first(), b.drop_first()))
                =~= out@.push(scope@[i as int]) + common_ancestor(
                a.drop_first(),
                b.drop_first(),
            ));
            assert(scope@.take(i as int + 1) =~= scope@.take(i as int).push(scope@[i as int]));
            assert(scope_prev@.take(i as int + 1) =~= scope_prev@.take(i as int).push(
                scope_prev@[i as int],
            ));
        }
        out.push(scope[i]);
        i = i + 1;
    }
    proof {
        let a = scope@.skip(i as int);
        let b = scope_prev@.skip(i as int);
        assert(common_ancestor(a, b) =~= Seq::empty());
        assert(out@ + Seq::<u64>::empty() =~= out@);
    }
    out
}

/// The common ancestor of two scopes starts both of them.
pub proof fn lemma_common_ancestor_is_prefix(a: Seq<u64>, b: Seq<u64>)
    ensures
        common_ancestor(a, b).is_prefix_of(a),
        common_ancestor(a, b).is_prefix_of(b),
    decreases a.len(),
{
    if a.len() == 0 || b.len() == 0 || a[0] != b[0] {
    } else {
        lemma_common_ancestor_is_prefix(a.drop_first(), b.drop_first());
        let rest = common_ancestor(a.drop_first(), b.drop_first());
        let c = seq![a[0]] + rest;
        assert forall|i: int| 0 <= i < c.len() implies c[i] == a[i] && c[i] == b[i] by {
            if i > 0 {
                assert(c[i] == rest[i - 1]);
                assert(a.drop_first()[i - 1] == a[i]);
                assert(b.drop_first()[i - 1] == b[i]);
            }
        }
    }
}

/// No scope that starts both scopes is longer than their common ancestor:
/// every such scope starts the common ancestor.
pub proof fn lemma_common_ancestor_is_longest(a: Seq<u64>, b: Seq<u64>, p: Seq<u64>)
    requires
        p.is_prefix_of(a),
        p.is_prefix_of(b),
    ensures
        p.is_prefix_of(common_ancestor(a, b)),
    decreases a.len(),
{
    if p.len() == 0 {
    } else {
        assert(a[0] == p[0] && b[0] == p[0]);
        let p1 = p.drop_first();
        assert(p1.is_prefix_of(a.drop_first())) by {
            assert forall|i: int| 0 <= i < p1.len() implies p1[i] == a.drop_first()[i] by {
                assert(p[i + 1] == a[i + 1]);
            }
        }
        assert(p1.is_prefix_of(b.drop_first())) by {
            assert forall|i: int| 0 <= i < p1.len() implies p1[i] == b.drop_first()[i] by {
                assert(p[i + 1] == b[i + 1]);
            }
        }
        lemma_common_ancestor_is_longest(a.drop_first(), b.drop_first(), p1);
        let rest = common_ancestor(a.drop_first(), b.drop_first());
        let c = seq![a[0]] + rest;
        assert forall|i: int| 0 <= i < p.len() implies p[i] == c[i] by {
            if i > 0 {
                assert(p1[i - 1] == rest[i - 1]);
            }
        }
    }
}

} // verus!
