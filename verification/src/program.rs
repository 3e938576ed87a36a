//! A loaded build program: statements, and the programs that `INCLUDE`
//! pulled in, in the order they were written.
use std::sync::Arc;
use vstd::prelude::*;

use crate::dsl::{FromSource, InstCmd, InstEntrypoint, InstMount, Instruction, Origin, Statement};

verus! {

/// An element of a program: a statement, or an included program.
#[derive(Clone, Debug, Hash, PartialEq, Eq)]
pub enum Item {
    Statement(Statement),
    Program(Arc<Program>),
}

/// A build program: its items, the template context it was rendered
/// with, and the file it came from.
#[derive(Clone, Debug, Hash, PartialEq, Eq)]
pub struct Program {
    pub code: Vec<Item>,
    pub ctx: minijinja::Value,
    pub path: String,
}

/// All statements of `items`, included programs expanded in place, in
/// order.
pub open spec fn flatten_items(items: Seq<Item>) -> Seq<Statement>
    decreases items,
{
    if items.len() == 0 {
        Seq::empty()
    } else {
        let first = match items[0] {
            Item::Statement(s) => seq![s],
            Item::Program(p) => flatten_items(p.code@),
        };
        first + flatten_items(items.subrange(1, items.len() as int))
    }
}

/// The statements of `refs`, dereferenced.
pub open spec fn deref_all(refs: Seq<&Statement>) -> Seq<Statement> {
    refs.map_values(|s: &Statement| *s)
}

impl Item {
    /// An item holding a new program.
    pub fn program(code: Vec<Item>, ctx: minijinja::Value, path: &str) -> (r: Self)
        ensures
            r matches Item::Program(p) && p.code == code && p.ctx == ctx && p.path@ == path@,
    {
        Item::Program(Arc::new(Program { code, ctx, path: path.to_owned() }))
    }

    /// An item holding one statement.
    pub fn statement(inst: Instruction, origin: Origin) -> (r: Self)
        ensures
            r == Item::Statement(Statement { inst, origin }),
    {
        Item::Statement(Statement { inst, origin })
    }
}

/// Whether item `i` is a top-level statement with an instruction of the
/// kind that `kind` selects.
pub open spec fn is_kind(item: Item, kind: int) -> bool {
    match item {
        Item::Statement(s) => match s.inst {
            Instruction::From(_) => kind == 0,
            Instruction::Cmd(_) => kind == 1,
            Instruction::Entrypoint(_) => kind == 2,
            Instruction::Mount(_) => kind == 3,
            _ => false,
        },
        _ => false,
    }
}

/// Item `i` is the first top-level item of the given kind (see
/// `is_kind`).
pub open spec fn is_first_of_kind(items: Seq<Item>, i: int, kind: int) -> bool {
    &&& 0 <= i < items.len()
    &&& is_kind(items[i], kind)
    &&& forall|j: int| 0 <= j < i ==> !is_kind(#[trigger] items[j], kind)
}

/// No top-level item is of the given kind.
pub open spec fn none_of_kind(items: Seq<Item>, kind: int) -> bool {
    forall|j: int| 0 <= j < items.len() ==> !is_kind(#[trigger] items[j], kind)
}

/// The mounts declared by the top-level items of `items`, in order.
pub open spec fn mounts_of(items: Seq<Item>) -> Seq<InstMount>
    decreases items.len(),
{
    if items.len() == 0 {
        Seq::empty()
    } else {
        let rest = mounts_of(items.drop_last());
        match items.last() {
            Item::Statement(s) => match s.inst {
                Instruction::Mount(m) => rest.push(m),
                _ => rest,
            },
            _ => rest,
        }
    }
}

/// Finds the first top-level item of the given kind.
fn find_first(items: &Vec<Item>, kind: u8) -> (r: Option<usize>)
    ensures
        match r {
            Some(i) => is_first_of_kind(items@, i as int, kind as int),
            None => none_of_kind(items@, kind as int),
        },
{
    let mut i: usize = 0;
    while i < items.len()
        invariant
            i <= items@.len(),
            forall|j: int| 0 <= j < i ==> !is_kind(#[trigger] items@[j], kind as int),
        decreases items@.len() - i,
    {
        let hit = match &items[i] {
            Item::Statement(s) => match &s.inst {
                Instruction::From(_) => kind == 0,
                Instruction::Cmd(_) => kind == 1,
                Instruction::Entrypoint(_) => kind == 2,
                Instruction::Mount(_) => kind == 3,
                _ => false,
            },
            _ => false,
        };
        if hit {
            return Some(i);
        }
        i = i + 1;
    }
    None
}

impl Program {
    /// A program with the given items, context and path.
    pub fn new(code: Vec<Item>, ctx: minijinja::Value, path: String) -> (r: Self)
        ensures
            r.code == code,
            r.ctx == ctx,
            r.path == path,
    {
        Program { code, ctx, path }
    }

    /// The source of the first top-level `FROM`, and where it was written.
    pub fn from(&self) -> (r: Option<(&FromSource, &Origin)>)
        ensures
            r is None <==> none_of_kind(self.code@, 0),
            r matches Some((f, o)) ==> exists|i: int|
                is_first_of_kind(self.code@, i, 0) && (#[trigger] self.code@[i] matches Item::Statement(
                    s,
                ) && s.inst matches Instruction::From(x) && *f == x.from && *o == s.origin),
    {
        match find_first(&self.code, 0) {
            Some(i) => match &self.code[i] {
                Item::Statement(s) => match &s.inst {
                    Instruction::From(f) => Some((&f.from, &s.origin)),
                    _ => None,
                },
                _ => None,
            },
            None => None,
        }
    }

    /// The first top-level `CMD`.
    pub fn cmd(&self) -> (r: Option<&InstCmd>)
        ensures
            r is None <==> none_of_kind(self.code@, 1),
            r matches Some(c) ==> exists|i: int|
                is_first_of_kind(self.code@, i, 1) && (#[trigger] self.code@[i] matches Item::Statement(
                    s,
                ) && s.inst == Instruction::Cmd(*c)),
    {
        match find_first(&self.code, 1) {
            Some(i) => match &self.code[i] {
                Item::Statement(s) => match &s.inst {
                    Instruction::Cmd(c) => Some(c),
                    _ => None,
                },
                _ => None,
            },
            None => None,
        }
    }

    /// The first top-level `ENTRYPOINT`.
    pub fn entrypoint(&self) -> (r: Option<&InstEntrypoint>)
        ensures
            r is None <==> none_of_kind(self.code@, 2),
            r matches Some(e) ==> exists|i: int|
                is_first_of_kind(self.code@, i, 2) && (#[trigger] self.code@[i] matches Item::Statement(
                    s,
                ) && s.inst == Instruction::Entrypoint(*e)),
    {
        match find_first(&self.code, 2) {
            Some(i) => match &self.code[i] {
                Item::Statement(s) => match &s.inst {
                    Instruction::Entrypoint(e) => Some(e),
                    _ => None,
                },
                _ => None,
            },
            None => None,
        }
    }

    /// All top-level `MOUNT` instructions, in order.
    pub fn mounts(&self) -> (r: Vec<&InstMount>)
        ensures
            r@.map_values(|m: &InstMount| *m) == mounts_of(self.code@),
    {
        let mut res: Vec<&InstMount> = Vec::new();
        let mut i: usize = 0;
        while i < self.code.len()
            invariant
                i <= self.code@.len(),
                res@.map_values(|m: &InstMount| *m) == mounts_of(self.code@.take(i as int)),
            decreases self.code@.len() - i,
        {
            proof {
                assert(self.code@.take(i + 1).drop_last() =~= self.code@.take(i as int));
            }
            match &self.code[i] {
                Item::Statement(s) => match &s.inst {
                    Instruction::Mount(m) => {
                        res.push(m);
                    },
                    _ => {},
                },
                _ => {},
            }
            i = i + 1;
            proof {
                assert(res@.map_values(|m: &InstMount| *m) =~= mounts_of(self.code@.take(i as int)));
            }
        }
        proof {
            assert(self.code@.take(self.code@.len() as int) =~= self.code@);
        }
        res
    }
}

/// Appends all statements of `items` to `out`, included programs
/// expanded in place.
fn flatten_into<'a>(items: &'a Vec<Item>, out: &mut Vec<&'a Statement>)
    ensures
        deref_all(final(out)@) == deref_all(old(out)@) + flatten_items(items@),
    decreases items@,
{
    let ghost start = deref_all(out@);
    let mut i: usize = 0;
    while i < items.len()
        invariant
            i <= items@.len(),
            deref_all(out@) == start + flatten_items(items@.take(i as int)),
        decreases items@.len() - i,
    {
        let ghost before = deref_all(out@);
        match &items[i] {
            Item::Statement(s) => {
                out.push(s);
            },
            Item::Program(p) => {
                assert(decreases_to!(items@ => items@[i as int]));
                flatten_into(&p.code, out);
            },
        }
        proof {
            lemma_flatten_take(items@, i as int);
            assert(deref_all(out@) =~= before + match items@[i as int] {
                Item::Statement(s) => seq![s],
                Item::Program(p) => flatten_items(p.code@),
            });
        }
        i = i + 1;
    }
    proof {
        assert(items@.take(items@.len() as int) =~= items@);
    }
}

/// Flattening a prefix one item longer appends that item's statements.
proof fn lemma_flatten_take(items: Seq<Item>, i: int)
    requires
        0 <= i < items.len(),
    ensures
        flatten_items(items.take(i + 1)) == flatten_items(items.take(i)) + match items[i] {
            Item::Statement(s) => seq![s],
            Item::Program(p) => flatten_items(p.code@),
        },
    decreases i,
{
    let t = items.take(i + 1);
    if i == 0 {
        assert(t.subrange(1, t.len() as int) =~= Seq::<Item>::empty());
        assert(flatten_items(Seq::<Item>::empty()) == Seq::<Statement>::empty());
        assert(items.take(0) =~= Seq::<Item>::empty());
    } else {
        let tail = items.subrange(1, items.len() as int);
        lemma_flatten_take(tail, i - 1);
        assert(t.subrange(1, t.len() as int) =~= tail.take(i));
        assert(items.take(i).subrange(1, i) =~= tail.take(i - 1));
        assert(tail[i - 1] == items[i]);
        assert(t[0] == items[0]);
        assert(items.take(i)[0] == items[0]);
    }
}

/// All statements of `program`, included programs expanded in place, in
/// the order in which they are executed.
pub fn flatten_program<'a>(program: &'a Program) -> (r: Vec<&'a Statement>)
    ensures
        deref_all(r@) == flatten_items(program.code@),
{
    let mut out: Vec<&'a Statement> = Vec::new();
    proof {
        assert(deref_all(out@) =~= Seq::<Statement>::empty());
    }
    flatten_into(&program.code, &mut out);
    proof {
        assert(Seq::<Statement>::empty() + flatten_items(program.code@) =~= flatten_items(
            program.code@,
        ));
    }
    out
}

} // verus!
