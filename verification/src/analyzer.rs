//! The scope analyzer: reports reads of names no binding covers.
//!
//! It walks only the forms it knows — binary nodes, declarations, blocks
//! and bare identifiers — and keeps a stack of scopes, opening one per
//! block.

use vstd::prelude::*;
use crate::ast::{Expr, ExprKind};
use crate::error::Error;

verus! {

/// Whether a name is bound in any open scope.
pub open spec fn scopes_bind(scopes: Seq<Seq<Seq<char>>>, name: Seq<char>) -> bool {
    exists|i: int, j: int|
        0 <= i < scopes.len() && 0 <= j < scopes[i].len() && #[trigger] scopes[i][j] == name
}

/// The scope stack as sequences of name views.
pub open spec fn scopes_view(v: Seq<Vec<String>>) -> Seq<Seq<Seq<char>>> {
    v.map_values(|sc: Vec<String>| sc@.map_values(|n: String| n@))
}

/// The diagnostic text for a read no binding covers.
pub open spec fn unbound_msg() -> Seq<char> {
    "Variable not found in the current scope"@
}

/// Prefixes chain.
proof fn lemma_prefix_chain<A>(a: Seq<A>, b: Seq<A>, c: Seq<A>)
    requires
        a.is_prefix_of(b),
        b.is_prefix_of(c),
    ensures
        a.is_prefix_of(c),
{
    assert(c.subrange(0, a.len() as int) =~= b.subrange(0, a.len() as int));
}

/// The scope analyzer.
pub struct Analyzer<'a> {
    pub ast: &'a Vec<Expr>,
    pub source: String,
    pub filename: String,
    pub variables: Vec<Vec<String>>,
    pub errors: Vec<Error>,
}

impl<'a> Analyzer<'a> {
    pub fn new(ast: &'a Vec<Expr>, source: String, filename: String) -> (r: Self)
        ensures
            r.ast == ast,
            r.errors@ == Seq::<Error>::empty(),
            r.variables@.len() == 1,
    {
        let mut variables: Vec<Vec<String>> = Vec::new();
        variables.push(Vec::new());
        Analyzer { ast, variables, source, filename, errors: Vec::new() }
    }

    /// Walks every top-level expression; says whether any diagnostic
    /// stands afterwards. Every diagnostic this walk appends is an
    /// unbound-read report.
    pub fn analyze(&mut self) -> (r: bool)
        requires
            old(self).variables@.len() >= 1,
        ensures
            r == (final(self).errors@.len() > 0),
            old(self).errors@.is_prefix_of(final(self).errors@),
            forall|k: int|
                old(self).errors@.len() <= k < final(self).errors@.len()
                    ==> (#[trigger] final(self).errors@[k]).message@ == unbound_msg(),
            final(self).variables@.len() == old(self).variables@.len(),
    {
        let ast = self.ast;
        let mut i: usize = 0;
        proof {
            assert(self.errors@.take(self.errors@.len() as int) =~= self.errors@);
        }
        while i < ast.len()
            invariant
                i <= ast.len(),
                self.ast == ast,
                self.variables@.len() == old(self).variables@.len(),
                self.variables@.len() >= 1,
                old(self).errors@.is_prefix_of(self.errors@),
                forall|k: int|
                    old(self).errors@.len() <= k < self.errors@.len() ==> (#[trigger] self
                        .errors@[k]).message@ == unbound_msg(),
            decreases ast.len() - i,
        {
            let ghost pre = self.errors@;
            self.handle(&ast[i]);
            i = i + 1;
            proof {
                lemma_prefix_chain(old(self).errors@, pre, self.errors@);
                assert forall|k: int|
                    old(self).errors@.len() <= k < self.errors@.len() implies (#[trigger] self
                        .errors@[k]).message@ == unbound_msg() by {
                    if k < pre.len() {
                        assert(self.errors@.subrange(0, pre.len() as int) =~= pre);
                        assert(self.errors@[k] == pre[k]);
                    }
                }
            }
        }
        self.has_errors()
    }

    /// Walks one expression, recording bindings and checking reads: a
    /// read of a name no open scope binds appends one diagnostic with
    /// that read's span; bindings are added only to the innermost open
    /// scope; a block's bindings live in a scope of their own and are
    /// gone when the block ends.
    pub fn handle(&mut self, expr: &Expr)
        requires
            old(self).variables@.len() >= 1,
        ensures
            final(self).ast == old(self).ast,
            final(self).source == old(self).source,
            final(self).filename == old(self).filename,
            final(self).variables@.len() == old(self).variables@.len(),
            forall|i: int|
                0 <= i < old(self).variables@.len() - 1 ==> #[trigger] final(self).variables@[i]
                    == old(self).variables@[i],
            old(self).variables@.last()@.is_prefix_of(final(self).variables@.last()@),
            old(self).errors@.is_prefix_of(final(self).errors@),
            forall|k: int|
                old(self).errors@.len() <= k < final(self).errors@.len()
                    ==> (#[trigger] final(self).errors@[k]).message@ == unbound_msg(),
            expr.inner matches ExprKind::Ident(name) ==> ({
                let bound = scopes_bind(scopes_view(old(self).variables@), name@);
                &&& final(self).variables@ == old(self).variables@
                &&& (bound ==> final(self).errors@ == old(self).errors@)
                &&& (!bound ==> final(self).errors@ == old(self).errors@.push(
                    final(self).errors@.last(),
                ) && final(self).errors@.last().span == expr.span
                    && final(self).errors@.last().message@ == unbound_msg())
            }),
            expr.inner matches ExprKind::Block(_) ==> final(self).variables@ == old(self).variables@,
        decreases expr.inner,
    {
        match &expr.inner {
            ExprKind::Binary(lhs, _, rhs) => {
                self.handle(&**lhs);
                let ghost mid_vars = self.variables@;
                let ghost mid_errs = self.errors@;
                self.handle(&**rhs);
                proof {
                    lemma_prefix_chain(old(self).errors@, mid_errs, self.errors@);
                    lemma_prefix_chain(
                        old(self).variables@.last()@,
                        mid_vars.last()@,
                        self.variables@.last()@,
                    );
                    assert forall|k: int|
                        old(self).errors@.len() <= k < self.errors@.len() implies (
                    #[trigger] self.errors@[k]).message@ == unbound_msg() by {
                        if k < mid_errs.len() {
                            assert(self.errors@.subrange(0, mid_errs.len() as int) =~= mid_errs);
                            assert(self.errors@[k] == mid_errs[k]);
                        }
                    }
                }
            },
            ExprKind::Var(n, val, _) => {
                self.handle(&**val);
                let ghost mid_vars = self.variables@;
                let depth = self.variables.len();
                let scope = &mut self.variables[depth - 1];
                scope.push(n.clone());
                proof {
                    assert(self.variables@.last()@ =~= mid_vars.last()@.push(*n));
                    assert(mid_vars.last()@.is_prefix_of(self.variables@.last()@));
                    lemma_prefix_chain(
                        old(self).variables@.last()@,
                        mid_vars.last()@,
                        self.variables@.last()@,
                    );
                }
            },
            ExprKind::Block(exprs) => {
                proof {
                    assert(expr.inner == ExprKind::Block(*exprs));
                }
                self.variables.push(Vec::new());
                let mut k: usize = 0;
                while k < exprs.len()
                    invariant
                        k <= exprs.len(),
                        expr.inner == ExprKind::Block(*exprs),
                        self.variables@.len() == old(self).variables@.len() + 1,
                        forall|x: int|
                            0 <= x < old(self).variables@.len() ==> #[trigger] self.variables@[x]
                                == old(self).variables@[x],
                        self.ast == old(self).ast,
                        self.source == old(self).source,
                        self.filename == old(self).filename,
                        old(self).errors@.is_prefix_of(self.errors@),
                        forall|y: int|
                            old(self).errors@.len() <= y < self.errors@.len() ==> (
                            #[trigger] self.errors@[y]).message@ == unbound_msg(),
                    decreases exprs.len() - k,
                {
                    proof {
                        let ev = expr.inner;
                        match ev {
                            ExprKind::Block(gb) => {
                                assert(gb == *exprs);
                                assert(decreases_to!(ev => gb));
                                assert(decreases_to!(gb => gb@));
                                assert(decreases_to!(gb@ => gb@[k as int]));
                            },
                            _ => {},
                        }
                        assert(decreases_to!(expr.inner => exprs@[k as int]));
                    }
                    let ghost pre_errs = self.errors@;
                    self.handle(&exprs[k]);
                    k = k + 1;
                    proof {
                        lemma_prefix_chain(old(self).errors@, pre_errs, self.errors@);
                        assert forall|y: int|
                            old(self).errors@.len() <= y < self.errors@.len() implies (
                        #[trigger] self.errors@[y]).message@ == unbound_msg() by {
                            if y < pre_errs.len() {
                                assert(self.errors@.subrange(0, pre_errs.len() as int)
                                    =~= pre_errs);
                                assert(self.errors@[y] == pre_errs[y]);
                            }
                        }
                    }
                }
                let _closed = self.variables.pop();
                proof {
                    assert(self.variables@ =~= old(self).variables@);
                    assert(old(self).variables@.last()@.is_prefix_of(
                        self.variables@.last()@,
                    )) by {
                        assert(self.variables@.last()@.subrange(
                            0,
                            old(self).variables@.last()@.len() as int,
                        ) =~= old(self).variables@.last()@);
                    }
                }
            },
            ExprKind::Ident(ident) => {
                if !self.lookup(ident) {
                    let err = Error {
                        source: self.source.clone(),
                        file_name: self.filename.clone(),
                        message: "Variable not found in the current scope".to_owned(),
                        span: expr.span,
                        help: "".to_owned(),
                    };
                    self.errors.push(err);
                }
                proof {
                    assert(old(self).errors@.is_prefix_of(self.errors@)) by {
                        assert(self.errors@.subrange(0, old(self).errors@.len() as int)
                            =~= old(self).errors@);
                    }
                    assert(old(self).variables@.last()@.is_prefix_of(
                        self.variables@.last()@,
                    )) by {
                        assert(self.variables@.last()@.subrange(
                            0,
                            old(self).variables@.last()@.len() as int,
                        ) =~= old(self).variables@.last()@);
                    }
                }
            },
            _ => {
                proof {
                    assert(self.errors@.subrange(0, old(self).errors@.len() as int)
                        =~= old(self).errors@);
                    assert(self.variables@.last()@.subrange(
                        0,
                        old(self).variables@.last()@.len() as int,
                    ) =~= old(self).variables@.last()@);
                }
            },
        }
    }

    /// Whether any open scope binds the name.
    fn lookup(&self, ident: &String) -> (r: bool)
        ensures
            r == scopes_bind(
                self.variables@.map_values(
                    |sc: Vec<String>| sc@.map_values(|n: String| n@),
                ),
                ident@,
            ),
    {
        let ghost gs = self.variables@.map_values(
            |sc: Vec<String>| sc@.map_values(|n: String| n@),
        );
        let mut i: usize = self.variables.len();
        while i > 0
            invariant
                i <= self.variables@.len(),
                gs == self.variables@.map_values(
                    |sc: Vec<String>| sc@.map_values(|n: String| n@),
                ),
                forall|x: int, j: int|
                    i <= x < gs.len() && 0 <= j < gs[x].len() ==> #[trigger] gs[x][j] != ident@,
            decreases i,
        {
            i = i - 1;
            let scope = &self.variables[i];
            let mut j: usize = 0;
            while j < scope.len()
                invariant
                    i < self.variables@.len(),
                    j <= scope@.len(),
                    scope == &self.variables[i as int],
                    gs == self.variables@.map_values(
                        |sc: Vec<String>| sc@.map_values(|n: String| n@),
                    ),
                    forall|y: int| 0 <= y < j ==> #[trigger] gs[i as int][y] != ident@,
                decreases scope@.len() - j,
            {
                if scope[j] == *ident {
                    proof {
                        assert(gs[i as int][j as int] == ident@);
                    }
                    return true;
                }
                j = j + 1;
            }
        }
        proof {
            assert(!scopes_bind(gs, ident@));
        }
        false
    }

    /// Whether any diagnostic has been recorded.
    pub fn has_errors(&self) -> (r: bool)
        ensures
            r == (self.errors@.len() > 0),
    {
        self.errors.len() > 0
    }
}

} // verus!
