//! The policy intermediate representation: a typed tree of statements
//! (table, chain, rule, flush), expressions (match, comparison, verdicts,
//! counter) and a deterministic renderer that turns each statement into
//! exactly one line of rule-language text.

use vstd::prelude::*;
use crate::text::{dec_digits, join_chars, join_with, u64_to_string};

verus! {

/// The protocol family a table is scoped to.
#[derive(Debug, Clone, Copy, PartialEq, Eq, Structural)]
pub enum TableFamily {
    Ip,
    Ip6,
    Inet,
    Arp,
    Bridge,
    Netdev,
}

/// The operand of a comparison: a set of literals, one literal, or a number.
#[derive(Debug, Clone)]
pub enum Data {
    SetVal(Vec<String>),
    StrVal(String),
    NumVal(u64),
}

/// A comparison: an operator applied to an operand.
#[derive(Debug, Clone)]
pub struct Cmp {
    pub op: String,
    pub data: Data,
}

/// A selector wrapping a comparison, e.g. protocol or field matching.
#[derive(Debug)]
pub struct Match {
    pub op: String,
    pub expr: Box<Expr>,
}

/// One expression of a rule, evaluated left to right at runtime.
#[derive(Debug)]
pub enum Expr {
    Match(Match),
    Cmp(Cmp),
    Accept,
    Drop,
    Counter,
}

/// Creation of a table.
#[derive(Debug, Clone)]
pub struct AddTable {
    pub family: TableFamily,
    pub name: String,
}

/// Creation of a chain, optionally with a hook/priority/policy clause.
#[derive(Debug, Clone)]
pub struct AddChain {
    pub family: TableFamily,
    pub table: String,
    pub name: String,
    pub handle: Option<u32>,
    pub constraint: Option<String>,
}

/// Addition of one rule to a chain.
#[derive(Debug)]
pub struct Add {
    pub family: TableFamily,
    pub table: String,
    pub chain: String,
    pub handle: Option<u32>,
    pub index: Option<u32>,
    pub expr: Vec<Expr>,
}

/// Removal of all rules of a table or of a chain.
#[derive(Debug, Clone)]
pub enum Flush {
    Table { family: TableFamily, name: String },
    Chain { family: TableFamily, table: String, name: String },
}

/// One statement of a rule batch.
#[derive(Debug)]
pub enum Stmt {
    AddTable(AddTable),
    AddChain(AddChain),
    Add(Add),
    Flush(Flush),
}

/// The rendered name of a protocol family.
pub open spec fn family_chars(f: TableFamily) -> Seq<char> {
    match f {
        TableFamily::Ip => "ip"@,
        TableFamily::Ip6 => "ip6"@,
        TableFamily::Inet => "inet"@,
        TableFamily::Arp => "arp"@,
        TableFamily::Bridge => "bridge"@,
        TableFamily::Netdev => "netdev"@,
    }
}

/// Rendered text of a selector around an already-rendered inner expression.
pub open spec fn match_chars(op: Seq<char>, inner: Seq<char>) -> Seq<char> {
    op + " "@ + inner
}

/// Rendered text of a comparison against one literal operand.
pub open spec fn cmp_str_chars(op: Seq<char>, v: Seq<char>) -> Seq<char> {
    op + " "@ + v
}

/// Rendered text of a comparison against a set of literal operands.
pub open spec fn cmp_set_chars(op: Seq<char>, items: Seq<Seq<char>>) -> Seq<char> {
    op + " { "@ + join_chars(items, ", "@) + " }"@
}

/// Rendered text of a comparison.
pub open spec fn cmp_chars(c: Cmp) -> Seq<char> {
    match c.data {
        Data::SetVal(items) => cmp_set_chars(c.op@, items.deep_view()),
        Data::StrVal(v) => cmp_str_chars(c.op@, v@),
        Data::NumVal(n) => cmp_str_chars(c.op@, dec_digits(n as nat)),
    }
}

/// Rendered text of one expression.
pub open spec fn expr_chars(e: Expr) -> Seq<char>
    decreases e,
{
    match e {
        Expr::Match(m) => match_chars(m.op@, expr_chars(*m.expr)),
        Expr::Cmp(c) => cmp_chars(c),
        Expr::Accept => "accept"@,
        Expr::Drop => "drop"@,
        Expr::Counter => "counter"@,
    }
}

/// The rendered texts of a sequence of expressions.
pub open spec fn exprs_views(es: Seq<Expr>) -> Seq<Seq<char>> {
    es.map(|i: int, e: Expr| expr_chars(e))
}

/// Rendered text of a whole expression list: evaluation order, one space apart.
pub open spec fn exprs_chars(es: Seq<Expr>) -> Seq<char> {
    join_chars(exprs_views(es), " "@)
}

/// Rendered text of a table-creation statement.
pub open spec fn add_table_chars(family: Seq<char>, name: Seq<char>) -> Seq<char> {
    "add table "@ + family + " "@ + name
}

/// Rendered text of a chain-creation statement.
pub open spec fn add_chain_chars(
    family: Seq<char>,
    table: Seq<char>,
    name: Seq<char>,
    constraint: Option<Seq<char>>,
) -> Seq<char> {
    match constraint {
        Some(k) => "add chain "@ + family + " "@ + table + " "@ + name + " "@ + k,
        None => "add chain "@ + family + " "@ + table + " "@ + name,
    }
}

/// Rendered text of a rule-addition statement around rendered expressions.
pub open spec fn add_rule_chars(
    family: Seq<char>,
    table: Seq<char>,
    chain: Seq<char>,
    exprs: Seq<char>,
) -> Seq<char> {
    "add rule "@ + family + " "@ + table + " "@ + chain + " "@ + exprs
}

/// Rendered text of a table flush.
pub open spec fn flush_table_chars(family: Seq<char>, name: Seq<char>) -> Seq<char> {
    "flush table "@ + family + " "@ + name
}

/// Rendered text of a chain flush.
pub open spec fn flush_chain_chars(family: Seq<char>, table: Seq<char>, name: Seq<char>) -> Seq<
    char,
> {
    "flush chain "@ + family + " "@ + table + " "@ + name
}

/// The view of an optional owned string.
pub open spec fn opt_string_view(o: Option<String>) -> Option<Seq<char>> {
    match o {
        Some(s) => Some(s@),
        None => None,
    }
}

/// The view of an optional borrowed string.
pub open spec fn opt_str_view(o: Option<&str>) -> Option<Seq<char>> {
    match o {
        Some(s) => Some(s@),
        None => None,
    }
}

/// Rendered text of one statement.
pub open spec fn stmt_chars(s: Stmt) -> Seq<char> {
    match s {
        Stmt::AddTable(t) => add_table_chars(family_chars(t.family), t.name@),
        Stmt::AddChain(c) => add_chain_chars(
            family_chars(c.family),
            c.table@,
            c.name@,
            opt_string_view(c.constraint),
        ),
        Stmt::Add(a) => add_rule_chars(
            family_chars(a.family),
            a.table@,
            a.chain@,
            exprs_chars(a.expr@),
        ),
        Stmt::Flush(Flush::Table { family, name }) => flush_table_chars(
            family_chars(family),
            name@,
        ),
        Stmt::Flush(Flush::Chain { family, table, name }) => flush_chain_chars(
            family_chars(family),
            table@,
            name@,
        ),
    }
}

/// Rendered text of one batch line: a statement, optionally followed by a
/// comment suffix.
pub open spec fn line_chars(s: Stmt, comment: Option<Seq<char>>) -> Seq<char> {
    match comment {
        Some(c) => stmt_chars(s) + " # "@ + c,
        None => stmt_chars(s),
    }
}

/// Builds a comparison of a field against one literal operand.
pub fn cmp_str(field: &str, value: &str) -> (r: Expr)
    ensures
        expr_chars(r) == cmp_str_chars(field@, value@),
{
    Expr::Cmp(Cmp { op: field.to_owned(), data: Data::StrVal(value.to_owned()) })
}

/// Builds a comparison of a field against a set of literal operands.
pub fn cmp_set(field: &str, items: Vec<String>) -> (r: Expr)
    ensures
        expr_chars(r) == cmp_set_chars(field@, items.deep_view()),
{
    Expr::Cmp(Cmp { op: field.to_owned(), data: Data::SetVal(items) })
}

/// Builds a selector around an inner expression.
pub fn match_expr(op: &str, inner: Expr) -> (r: Expr)
    ensures
        expr_chars(r) == match_chars(op@, expr_chars(inner)),
{
    Expr::Match(Match { op: op.to_owned(), expr: Box::new(inner) })
}

/// Renders a protocol family.
pub fn render_family(f: &TableFamily) -> (r: &'static str)
    ensures
        r@ == family_chars(*f),
{
    match f {
        TableFamily::Ip => "ip",
        TableFamily::Ip6 => "ip6",
        TableFamily::Inet => "inet",
        TableFamily::Arp => "arp",
        TableFamily::Bridge => "bridge",
        TableFamily::Netdev => "netdev",
    }
}

/// Renders a comparison.
pub fn render_cmp(c: &Cmp) -> (r: String)
    ensures
        r@ == cmp_chars(*c),
{
    let mut r = c.op.clone();
    match &c.data {
        Data::SetVal(items) => {
            r.append(" { ");
            let joined = join_with(items, ", ");
            r.append(joined.as_str());
            r.append(" }");
            proof {
                assert(r@ =~= cmp_chars(*c));
            }
        },
        Data::StrVal(v) => {
            r.append(" ");
            r.append(v.as_str());
            proof {
                assert(r@ =~= cmp_chars(*c));
            }
        },
        Data::NumVal(n) => {
            r.append(" ");
            let num = u64_to_string(*n);
            r.append(num.as_str());
            proof {
                assert(r@ =~= cmp_chars(*c));
            }
        },
    }
    r
}

/// Renders one expression.
pub fn render_expr(e: &Expr) -> (r: String)
    ensures
        r@ == expr_chars(*e),
    decreases *e,
{
    match e {
        Expr::Match(m) => {
            let mut r = m.op.clone();
            r.append(" ");
            let inner = render_expr(&m.expr);
            r.append(inner.as_str());
            proof {
                assert(r@ =~= expr_chars(*e));
            }
            r
        },
        Expr::Cmp(c) => render_cmp(c),
        Expr::Accept => "accept".to_owned(),
        Expr::Drop => "drop".to_owned(),
        Expr::Counter => "counter".to_owned(),
    }
}

fn render_exprs_from(es: &Vec<Expr>, i: usize) -> (r: String)
    requires
        i <= es@.len(),
    ensures
        r@ == join_chars(exprs_views(es@.skip(i as int)), " "@),
    decreases es@.len() - i,
{
    if i == es.len() {
        let r = String::new();
        proof {
            assert(exprs_views(es@.skip(i as int)) =~= Seq::<Seq<char>>::empty());
        }
        r
    } else if i + 1 == es.len() {
        let r = render_expr(&es[i]);
        proof {
            assert(exprs_views(es@.skip(i as int)) =~= seq![expr_chars(es@[i as int])]);
        }
        r
    } else {
        let mut r = render_expr(&es[i]);
        r.append(" ");
        let rest = render_exprs_from(es, i + 1);
        r.append(rest.as_str());
        proof {
            let vs = exprs_views(es@.skip(i as int));
            assert(vs.drop_first() =~= exprs_views(es@.skip(i + 1)));
            assert(vs[0] == expr_chars(es@[i as int]));
            assert(r@ =~= join_chars(vs, " "@));
        }
        r
    }
}

/// Renders an expression list in evaluation order, one space apart.
pub fn render_exprs(es: &Vec<Expr>) -> (r: String)
    ensures
        r@ == exprs_chars(es@),
{
    let r = render_exprs_from(es, 0);
    proof {
        assert(es@.skip(0) =~= es@);
    }
    r
}

/// Renders one statement to its line of rule-language text.
pub fn render_stmt(s: &Stmt) -> (r: String)
    ensures
        r@ == stmt_chars(*s),
{
    match s {
        Stmt::AddTable(t) => {
            let mut r = "add table ".to_owned();
            r.append(render_family(&t.family));
            r.append(" ");
            r.append(t.name.as_str());
            proof {
                assert(r@ =~= stmt_chars(*s));
            }
            r
        },
        Stmt::AddChain(c) => {
            let mut r = "add chain ".to_owned();
            r.append(render_family(&c.family));
            r.append(" ");
            r.append(c.table.as_str());
            r.append(" ");
            r.append(c.name.as_str());
            if let Some(k) = &c.constraint {
                r.append(" ");
                r.append(k.as_str());
            }
            proof {
                assert(r@ =~= stmt_chars(*s));
            }
            r
        },
        Stmt::Add(a) => {
            let mut r = "add rule ".to_owned();
            r.append(render_family(&a.family));
            r.append(" ");
            r.append(a.table.as_str());
            r.append(" ");
            r.append(a.chain.as_str());
            r.append(" ");
            let body = render_exprs(&a.expr);
            r.append(body.as_str());
            proof {
                assert(r@ =~= stmt_chars(*s));
            }
            r
        },
        Stmt::Flush(Flush::Table { family, name }) => {
            let mut r = "flush table ".to_owned();
            r.append(render_family(family));
            r.append(" ");
            r.append(name.as_str());
            proof {
                assert(r@ =~= stmt_chars(*s));
            }
            r
        },
        Stmt::Flush(Flush::Chain { family, table, name }) => {
            let mut r = "flush chain ".to_owned();
            r.append(render_family(family));
            r.append(" ");
            r.append(table.as_str());
            r.append(" ");
            r.append(name.as_str());
            proof {
                assert(r@ =~= stmt_chars(*s));
            }
            r
        },
    }
}

/// An ordered sequence of rendered statements representing one atomic
/// configuration generation. Its view is the sequence of rendered lines.
#[derive(Debug)]
pub struct Batch {
    commands: Vec<String>,
}

impl View for Batch {
    type V = Seq<Seq<char>>;

    closed spec fn view(&self) -> Seq<Seq<char>> {
        self.commands.deep_view()
    }
}

impl Batch {
    /// An empty batch.
    pub fn new() -> (r: Self)
        ensures
            r@ == Seq::<Seq<char>>::empty(),
    {
        let r = Batch { commands: Vec::new() };
        proof {
            assert(r@ =~= Seq::<Seq<char>>::empty());
        }
        r
    }

    /// Appends the rendering of one statement, with an optional comment
    /// suffix, as one new line.
    pub fn add(&mut self, stmt: &Stmt, comment: Option<&str>)
        ensures
            final(self)@ == old(self)@.push(line_chars(*stmt, opt_str_view(comment))),
    {
        let mut cmd = render_stmt(stmt);
        if let Some(c) = comment {
            cmd.append(" # ");
            cmd.append(c);
            proof {
                assert(cmd@ =~= line_chars(*stmt, opt_str_view(comment)));
            }
        }
        self.commands.push(cmd);
        proof {
            assert(self@ =~= old(self)@.push(line_chars(*stmt, opt_str_view(comment))));
        }
    }

    /// A copy of this batch.
    pub fn clone(&self) -> (r: Self)
        ensures
            r@ == self@,
    {
        let r = Batch { commands: self.commands.clone() };
        proof {
            assert(r@ =~= self@);
        }
        r
    }

    /// The rendered lines, in order.
    pub fn commands(&self) -> (r: Vec<String>)
        ensures
            r.deep_view() == self@,
    {
        self.commands.clone()
    }

    /// The whole batch as one script, lines joined by newlines.
    pub fn script(&self) -> (r: String)
        ensures
            r@ == join_chars(self@, "\n"@),
    {
        join_with(&self.commands, "\n")
    }
}

/// Rendering is deterministic: one batch value has exactly one rendered
/// script, so rendering the same lines twice yields byte-identical text.
pub proof fn lemma_render_deterministic(a: Seq<Seq<char>>, b: Seq<Seq<char>>)
    requires
        a == b,
    ensures
        join_chars(a, "\n"@) == join_chars(b, "\n"@),
{
}

} // verus!
