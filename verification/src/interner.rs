use vstd::prelude::*;
use crate::term::{Name, NameView, Program, Term, TermView, Unique};
use crate::text::name_views;

verus! {

/// The position of the first name that is the given text.
pub open spec fn name_position(names: Seq<Seq<char>>, text: Seq<char>, upto: nat) -> Option<int>
    decreases upto,
{
    if upto == 0 || upto > names.len() {
        None
    } else {
        match name_position(names, text, (upto - 1) as nat) {
            Some(i) => Some(i),
            None => if names[upto - 1] == text {
                Some(upto - 1)
            } else {
                None
            },
        }
    }
}

/// The number that a position gives a name: the position itself, as far as
/// the numbers go.
pub open spec fn number_at(position: int) -> int {
    if position > isize::MAX {
        isize::MAX as int
    } else {
        position
    }
}

/// A name numbered: a text that was met before keeps its number, a new text
/// gets the next one.
pub open spec fn interned_name(name: NameView, names: Seq<Seq<char>>) -> (NameView, Seq<Seq<char>>) {
    match name_position(names, name.text, names.len()) {
        Some(i) => (NameView { text: name.text, unique: number_at(i) }, names),
        None => (
            NameView { text: name.text, unique: number_at(names.len() as int) },
            names.push(name.text),
        ),
    }
}

/// A term with every name numbered, in the order in which the names are met:
/// the parameter of a function before its body, the function of an
/// application before its argument.
pub open spec fn interned(term: TermView, names: Seq<Seq<char>>) -> (TermView, Seq<Seq<char>>)
    decreases term,
{
    match term {
        TermView::Var(name) => {
            let (n, after) = interned_name(name, names);
            (TermView::Var(n), after)
        },
        TermView::Delay(t) => {
            let (inner, after) = interned(*t, names);
            (TermView::Delay(Box::new(inner)), after)
        },
        TermView::Lambda { parameter_name, body } => {
            let (n, n1) = interned_name(parameter_name, names);
            let (inner, after) = interned(*body, n1);
            (TermView::Lambda { parameter_name: n, body: Box::new(inner) }, after)
        },
        TermView::Apply { function, argument } => {
            let (f, n1) = interned(*function, names);
            let (a, after) = interned(*argument, n1);
            (TermView::Apply { function: Box::new(f), argument: Box::new(a) }, after)
        },
        TermView::Force(t) => {
            let (inner, after) = interned(*t, names);
            (TermView::Force(Box::new(inner)), after)
        },
        other => (other, names),
    }
}

/// Gives every name of a program a number of its own, so that names of the
/// same text have the same number.
#[derive(Debug)]
pub struct Interner {
    pub identifiers: Vec<String>,
}

proof fn lemma_name_position_found(names: Seq<Seq<char>>, text: Seq<char>, at: int, upto: nat)
    requires
        0 <= at < upto <= names.len(),
        names[at] == text,
        forall|j: int| 0 <= j < at ==> names[j] != text,
    ensures
        name_position(names, text, upto) == Some(at),
    decreases upto,
{
    lemma_name_position_none(names, text, at as nat);
    if upto > at + 1 {
        lemma_name_position_found(names, text, at, (upto - 1) as nat);
    }
}

proof fn lemma_name_position_none(names: Seq<Seq<char>>, text: Seq<char>, upto: nat)
    requires
        upto <= names.len(),
        forall|j: int| 0 <= j < upto ==> names[j] != text,
    ensures
        name_position(names, text, upto).is_none(),
    decreases upto,
{
    if upto > 0 {
        lemma_name_position_none(names, text, (upto - 1) as nat);
    }
}

fn number_of(position: usize) -> (r: Unique)
    ensures
        r.0 as int == number_at(position as int),
{
    if position > isize::MAX as usize {
        Unique(isize::MAX)
    } else {
        Unique(position as isize)
    }
}

impl Interner {
    pub fn new() -> (r: Interner)
        ensures
            r.identifiers@.len() == 0,
    {
        Interner { identifiers: Vec::new() }
    }

    /// Numbers a name.
    pub fn intern(&mut self, name: Name) -> (r: Name)
        ensures
            (r@, name_views(final(self).identifiers@)) == interned_name(
                name@,
                name_views(old(self).identifiers@),
            ),
    {
        let ghost names = name_views(self.identifiers@);
        let mut i: usize = 0;
        while i < self.identifiers.len()
            invariant
                i <= self.identifiers@.len(),
                self.identifiers@ == old(self).identifiers@,
                names == name_views(self.identifiers@),
                forall|j: int| 0 <= j < i ==> names[j] != name.text@,
            decreases self.identifiers@.len() - i,
        {
            assert(names[i as int] == self.identifiers@[i as int]@);
            if self.identifiers[i] == name.text {
                proof {
                    lemma_name_position_found(names, name.text@, i as int, names.len());
                }
                return Name { text: name.text, unique: number_of(i) };
            }
            i = i + 1;
        }
        proof {
            lemma_name_position_none(names, name.text@, names.len());
        }
        let unique = number_of(self.identifiers.len());
        self.identifiers.push(name.text.clone());
        assert(name_views(self.identifiers@) =~= names.push(name.text@));
        Name { text: name.text, unique }
    }

    /// Numbers the names of a term.
    pub fn term(&mut self, term: Term) -> (r: Term)
        ensures
            (r@, name_views(final(self).identifiers@)) == interned(
                term@,
                name_views(old(self).identifiers@),
            ),
        decreases term,
    {
        match term {
            Term::Var(name) => Term::Var(self.intern(name)),
            Term::Delay(t) => Term::Delay(Box::new(self.term(*t))),
            Term::Lambda { parameter_name, body } => {
                let n = self.intern(parameter_name);
                let inner = self.term(*body);
                Term::Lambda { parameter_name: n, body: Box::new(inner) }
            },
            Term::Apply { function, argument } => {
                let f = self.term(*function);
                let a = self.term(*argument);
                Term::Apply { function: Box::new(f), argument: Box::new(a) }
            },
            Term::Force(t) => Term::Force(Box::new(self.term(*t))),
            Term::Constant(c) => Term::Constant(c),
            Term::Error => Term::Error,
            Term::Builtin(f) => Term::Builtin(f),
        }
    }

    /// Numbers the names of a program.
    pub fn program(&mut self, program: Program) -> (r: Program)
        ensures
            r.version == program.version,
            (r.term@, name_views(final(self).identifiers@)) == interned(
                program.term@,
                name_views(old(self).identifiers@),
            ),
    {
        Program { version: program.version, term: self.term(program.term) }
    }
}

} // verus!
