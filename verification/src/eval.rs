//! The evaluator: walks the syntax tree, keeping a chain of scopes and a
//! global function table, and collecting output and diagnostics.
//!
//! Entering a block or a call captures a full copy of the current scope as
//! the new scope's enclosing link, so assignments inside never escape: the
//! specification functions say so directly, and the executable evaluator is
//! proved to follow them. Runtime errors are non-fatal: each appends one
//! diagnostic and yields 0.0.

use crate::lexer::TokenModel;
use crate::num::{
    add_bits, div_bits, eq_bits, le_bits, lt_bits, mul_bits, neg_bits, num_eq, num_le, num_lt,
    num_neg, num_add, num_sub, num_mul, num_div, render_number, spec_render_number, sub_bits,
    NUM_ONE, NUM_ZERO,
};
use crate::parser::{node_model, nodes_view, strs_view, ASTNode, NodeModel};
use crate::text::str_concat;
use vstd::prelude::*;

verus! {

/// A name-to-value table; later writes win.
pub struct Bindings {
    pub entries: Vec<(String, ASTNode)>,
}

/// The mapping a table holds: each entry inserted in order.
pub open spec fn map_of(s: Seq<(String, ASTNode)>) -> Map<Seq<char>, NodeModel>
    decreases s.len(),
{
    if s.len() == 0 {
        Map::empty()
    } else {
        map_of(s.drop_last()).insert(s.last().0@, node_model(s.last().1))
    }
}

/// The mapping of a table.
pub open spec fn bindings_model(b: Bindings) -> Map<Seq<char>, NodeModel> {
    map_of(b.entries@)
}

/// Entries at or after `from` never bind `k`, so the mapping at `k` is
/// decided by the entries before `from`.
proof fn lemma_map_of_prefix(s: Seq<(String, ASTNode)>, k: Seq<char>, from: int)
    requires
        0 <= from <= s.len(),
        forall|j: int| from <= j < s.len() ==> s[j].0@ != k,
    ensures
        map_of(s).contains_key(k) == map_of(s.take(from)).contains_key(k),
        map_of(s).contains_key(k) ==> map_of(s)[k] == map_of(s.take(from))[k],
    decreases s.len() - from,
{
    if from < s.len() {
        let shorter = s.take(s.len() - 1);
        assert(shorter =~= s.drop_last());
        lemma_map_of_prefix(shorter, k, from);
        assert(shorter.take(from) =~= s.take(from));
    } else {
        assert(s.take(from) =~= s);
    }
}

/// A deep copy of a node, equal to the original in its model.
pub fn node_dup(n: &ASTNode) -> (r: ASTNode)
    ensures
        node_model(r) == node_model(*n),
    decreases *n,
{
    match n {
        ASTNode::Program(ss) => ASTNode::Program(nodes_dup(ss)),
        ASTNode::PrintStatement(e) => ASTNode::PrintStatement(Box::new(node_dup(e))),
        ASTNode::VariableAssignment(name, e) => ASTNode::VariableAssignment(
            name.clone(),
            Box::new(node_dup(e)),
        ),
        ASTNode::IfStatement { condition, then_branch, else_branch } => ASTNode::IfStatement {
            condition: Box::new(node_dup(condition)),
            then_branch: nodes_dup(then_branch),
            else_branch: match else_branch {
                Some(ss) => Some(nodes_dup(ss)),
                None => None,
            },
        },
        ASTNode::FunctionDeclaration { name, parameters, body } => ASTNode::FunctionDeclaration {
            name: name.clone(),
            parameters: strs_dup(parameters),
            body: nodes_dup(body),
        },
        ASTNode::FunctionCall { name, arguments } => ASTNode::FunctionCall {
            name: name.clone(),
            arguments: nodes_dup(arguments),
        },
        ASTNode::Identifier(s) => ASTNode::Identifier(s.clone()),
        ASTNode::StringLiteral(s) => ASTNode::StringLiteral(s.clone()),
        ASTNode::NumberLiteral(b) => ASTNode::NumberLiteral(*b),
        ASTNode::BinaryExpression { left, operator, right } => ASTNode::BinaryExpression {
            left: Box::new(node_dup(left)),
            operator: crate::parser::token_dup(operator),
            right: Box::new(node_dup(right)),
        },
        ASTNode::UnaryExpression { operator, operand } => ASTNode::UnaryExpression {
            operator: crate::parser::token_dup(operator),
            operand: Box::new(node_dup(operand)),
        },
    }
}

/// A deep copy of a node list.
pub fn nodes_dup(ss: &Vec<ASTNode>) -> (r: Vec<ASTNode>)
    ensures
        nodes_view(r@) == nodes_view(ss@),
    decreases *ss,
{
    let mut out: Vec<ASTNode> = Vec::new();
    let mut k: usize = 0;
    while k < ss.len()
        invariant
            k <= ss@.len(),
            out@.len() == k,
            forall|q: int| 0 <= q < k ==> node_model(out@[q]) == node_model(ss@[q]),
        decreases ss@.len() - k,
    {
        out.push(node_dup(&ss[k]));
        k = k + 1;
    }
    proof {
        assert(nodes_view(out@) =~= nodes_view(ss@));
    }
    out
}

/// A copy of a name list.
pub fn strs_dup(ss: &Vec<String>) -> (r: Vec<String>)
    ensures
        strs_view(r@) == strs_view(ss@),
{
    let mut out: Vec<String> = Vec::new();
    let mut k: usize = 0;
    while k < ss.len()
        invariant
            k <= ss@.len(),
            out@.len() == k,
            forall|q: int| 0 <= q < k ==> out@[q]@ == ss@[q]@,
        decreases ss@.len() - k,
    {
        out.push(ss[k].clone());
        k = k + 1;
    }
    proof {
        assert(strs_view(out@) =~= strs_view(ss@));
    }
    out
}

impl Bindings {
    /// An empty table.
    pub fn new() -> (r: Bindings)
        ensures
            bindings_model(r) == Map::<Seq<char>, NodeModel>::empty(),
    {
        Bindings { entries: Vec::new() }
    }

    /// Binds a name, shadowing any earlier binding of it.
    pub fn set(&mut self, name: String, value: ASTNode)
        ensures
            bindings_model(*final(self)) == bindings_model(*old(self)).insert(
                name@,
                node_model(value),
            ),
    {
        let ghost before = self.entries@;
        self.entries.push((name, value));
        proof {
            assert(self.entries@.drop_last() =~= before);
        }
    }

    /// The model of the value bound to a name, if any; the value handed out
    /// is a deep copy.
    pub fn get(&self, name: &str) -> (r: Option<ASTNode>)
        ensures
            match r {
                Some(v) => bindings_model(*self).contains_key(name@) && node_model(v)
                    == bindings_model(*self)[name@],
                None => !bindings_model(*self).contains_key(name@),
            },
    {
        let ghost s = self.entries@;
        let key = name.to_owned();
        let mut idx = self.entries.len();
        loop
            invariant
                idx <= s.len(),
                self.entries@ == s,
                key@ == name@,
                forall|j: int| idx <= j < s.len() ==> s[j].0@ != name@,
            ensures
                ({
                    let m = map_of(s);
                    if idx > 0 {
                        idx <= s.len() && s[idx - 1].0@ == name@ && m.contains_key(name@)
                            && m[name@] == node_model(s[idx - 1].1)
                    } else {
                        !m.contains_key(name@)
                    }
                }),
            decreases idx,
        {
            if idx == 0 {
                proof {
                    lemma_map_of_prefix(s, name@, 0);
                    assert(s.take(0) =~= Seq::<(String, ASTNode)>::empty());
                }
                break ;
            }
            if self.entries[idx - 1].0.eq(&key) {
                proof {
                    lemma_map_of_prefix(s, name@, idx as int);
                    let pre = s.take(idx as int);
                    assert(pre.drop_last() =~= s.take(idx - 1 as int));
                    assert(pre.last() == s[idx - 1]);
                }
                break ;
            }
            idx = idx - 1;
        }
        if idx > 0 {
            Some(node_dup(&self.entries[idx - 1].1))
        } else {
            None
        }
    }

    /// Whether a name is bound.
    pub fn contains(&self, name: &str) -> (r: bool)
        ensures
            r == bindings_model(*self).contains_key(name@),
    {
        match self.get(name) {
            Some(_) => true,
            None => false,
        }
    }
}

/// A scope in the chain: its own bindings, and an owned copy of the scope
/// that enclosed it when it was created.
pub struct Environment {
    pub values: Bindings,
    pub enclosing: Option<Box<Environment>>,
}

/// The mathematical shape of a scope chain.
pub ghost struct EnvModel {
    pub vars: Map<Seq<char>, NodeModel>,
    pub enclosing: Option<Box<EnvModel>>,
}

/// The model of a scope chain.
pub open spec fn env_model(e: Environment) -> EnvModel
    decreases e,
{
    EnvModel {
        vars: bindings_model(e.values),
        enclosing: match e.enclosing {
            Some(b) => Some(Box::new(env_model(*b))),
            None => None,
        },
    }
}

/// Name lookup through the chain, innermost scope first.
pub open spec fn env_lookup(e: EnvModel, k: Seq<char>) -> Option<NodeModel>
    decreases e,
{
    if e.vars.contains_key(k) {
        Some(e.vars[k])
    } else {
        match e.enclosing {
            Some(b) => env_lookup(*b, k),
            None => None,
        }
    }
}

/// Assignment to the nearest scope in the chain that already binds the
/// name; `false` if none does, and the chain is unchanged.
pub open spec fn env_assign_model(e: EnvModel, k: Seq<char>, v: NodeModel) -> (EnvModel, bool)
    decreases e,
{
    if e.vars.contains_key(k) {
        (EnvModel { vars: e.vars.insert(k, v), enclosing: e.enclosing }, true)
    } else {
        match e.enclosing {
            Some(b) => {
                let (b2, ok) = env_assign_model(*b, k, v);
                (EnvModel { vars: e.vars, enclosing: Some(Box::new(b2)) }, ok)
            },
            None => (e, false),
        }
    }
}

/// An assignment that finds no binding anywhere leaves the chain as it
/// was.
pub proof fn lemma_assign_miss(e: EnvModel, k: Seq<char>, v: NodeModel)
    requires
        !env_assign_model(e, k, v).1,
    ensures
        env_assign_model(e, k, v).0 == e,
    decreases e,
{
    if !e.vars.contains_key(k) {
        match e.enclosing {
            Some(b) => {
                lemma_assign_miss(*b, k, v);
            },
            None => {},
        }
    }
}

/// A deep copy of a table, equal in its mapping.
pub fn bindings_dup(b: &Bindings) -> (r: Bindings)
    ensures
        bindings_model(r) == bindings_model(*b),
{
    let ghost s = b.entries@;
    let mut out = Bindings::new();
    let mut k: usize = 0;
    while k < b.entries.len()
        invariant
            k <= s.len(),
            b.entries@ == s,
            bindings_model(out) == map_of(s.take(k as int)),
        decreases s.len() - k,
    {
        let name = b.entries[k].0.clone();
        let value = node_dup(&b.entries[k].1);
        out.set(name, value);
        proof {
            let pre = s.take(k + 1 as int);
            assert(pre.drop_last() =~= s.take(k as int));
            assert(pre.last() == s[k as int]);
        }
        k = k + 1;
    }
    proof {
        assert(s.take(s.len() as int) =~= s);
    }
    out
}

/// A deep copy of a scope chain, equal in its model.
pub fn env_dup(e: &Environment) -> (r: Environment)
    ensures
        env_model(r) == env_model(*e),
    decreases *e,
{
    Environment {
        values: bindings_dup(&e.values),
        enclosing: match &e.enclosing {
            Some(b) => Some(Box::new(env_dup(b))),
            None => None,
        },
    }
}

impl Environment {
    /// A fresh scope over an optional enclosing one.
    pub fn new(enclosing: Option<Box<Environment>>) -> (r: Environment)
        ensures
            env_model(r) == (EnvModel {
                vars: Map::<Seq<char>, NodeModel>::empty(),
                enclosing: match enclosing {
                    Some(b) => Some(Box::new(env_model(*b))),
                    None => None,
                },
            }),
    {
        Environment { values: Bindings::new(), enclosing }
    }

    /// Binds a name in this scope.
    pub fn define(&mut self, name: String, value: ASTNode)
        ensures
            env_model(*final(self)) == (EnvModel {
                vars: env_model(*old(self)).vars.insert(name@, node_model(value)),
                enclosing: env_model(*old(self)).enclosing,
            }),
    {
        self.values.set(name, value);
    }

    /// Looks a name up through the chain, innermost scope first; the value
    /// handed out is a deep copy.
    pub fn get(&self, name: &str) -> (r: Option<ASTNode>)
        ensures
            match r {
                Some(v) => env_lookup(env_model(*self), name@) == Some(node_model(v)),
                None => env_lookup(env_model(*self), name@) == None::<NodeModel>,
            },
        decreases *self,
    {
        match self.values.get(name) {
            Some(v) => Some(v),
            None => match &self.enclosing {
                Some(b) => b.get(name),
                None => None,
            },
        }
    }

    /// Assigns to the nearest scope that already binds the name; `false`
    /// (and no change) if none does.
    pub fn assign(&mut self, name: &str, value: ASTNode) -> (r: bool)
        ensures
            (env_model(*final(self)), r) == env_assign_model(
                env_model(*old(self)),
                name@,
                node_model(value),
            ),
        decreases *old(self),
    {
        if self.values.contains(name) {
            self.values.set(name.to_owned(), value);
            true
        } else {
            match &mut self.enclosing {
                Some(b) => b.assign(name, value),
                None => false,
            }
        }
    }
}

} // verus!

verus! {

// ---------------------------------------------------------------------------
// The specification evaluator: a fuel-indexed operational semantics.
// ---------------------------------------------------------------------------

/// Everything a run carries besides the scope chain: the global function
/// table, the output lines, the diagnostics, and whether the run is still
/// live (`false` once the call-depth budget ran out; from then on nothing
/// more happens).
pub ghost struct EvalState {
    pub funcs: Map<Seq<char>, NodeModel>,
    pub output: Seq<Seq<char>>,
    pub errors: Seq<Seq<char>>,
    pub live: bool,
}

/// The state with one more diagnostic line.
pub open spec fn with_err(st: EvalState, msg: Seq<char>) -> EvalState {
    EvalState { funcs: st.funcs, output: st.output, errors: st.errors.push(msg), live: st.live }
}

/// A number is truthy iff it is not (IEEE-)equal to zero; a string iff it
/// is nonempty; nothing else is truthy.
pub open spec fn spec_truthy(v: NodeModel) -> bool {
    match v {
        NodeModel::NumberLiteral(b) => !eq_bits(b, NUM_ZERO),
        NodeModel::StringLiteral(s) => s.len() != 0,
        _ => false,
    }
}

/// The line `print` writes for a value.
pub open spec fn print_line(v: NodeModel) -> Seq<char> {
    match v {
        NodeModel::StringLiteral(s) => s,
        NodeModel::NumberLiteral(b) => spec_render_number(b),
        _ => "Cannot print value"@,
    }
}

pub open spec fn undef_var_msg(name: Seq<char>) -> Seq<char> {
    "Error: Undefined variable '"@ + name + "'"@
}

pub open spec fn undef_fn_msg(name: Seq<char>) -> Seq<char> {
    "Error: Undefined function '"@ + name + "'"@
}

pub open spec fn arity_msg(name: Seq<char>) -> Seq<char> {
    "Error: Incorrect number of arguments for function '"@ + name + "'"@
}

/// What a binary operator yields on two values, or the diagnostic for an
/// unsupported combination. A comparison yields 1.0 or 0.0; `a > b` is
/// IEEE `b < a`, and `a >= b` is `b <= a`.
pub open spec fn spec_binop(l: NodeModel, op: TokenModel, r: NodeModel) -> Result<
    NodeModel,
    Seq<char>,
> {
    match (l, r) {
        (NodeModel::NumberLiteral(a), NodeModel::NumberLiteral(b)) => match op {
            TokenModel::Plus => Ok(NodeModel::NumberLiteral(add_bits(a, b))),
            TokenModel::Minus => Ok(NodeModel::NumberLiteral(sub_bits(a, b))),
            TokenModel::Star => Ok(NodeModel::NumberLiteral(mul_bits(a, b))),
            TokenModel::Slash => Ok(NodeModel::NumberLiteral(div_bits(a, b))),
            TokenModel::EqualEqual => Ok(NodeModel::NumberLiteral(bool_bits(eq_bits(a, b)))),
            TokenModel::NotEqual => Ok(NodeModel::NumberLiteral(bool_bits(!eq_bits(a, b)))),
            TokenModel::LessThan => Ok(NodeModel::NumberLiteral(bool_bits(lt_bits(a, b)))),
            TokenModel::GreaterThan => Ok(NodeModel::NumberLiteral(bool_bits(lt_bits(b, a)))),
            TokenModel::LessEqual => Ok(NodeModel::NumberLiteral(bool_bits(le_bits(a, b)))),
            TokenModel::GreaterEqual => Ok(NodeModel::NumberLiteral(bool_bits(le_bits(b, a)))),
            _ => Err("Error: Unsupported operator"@),
        },
        (NodeModel::StringLiteral(a), NodeModel::StringLiteral(b)) => match op {
            TokenModel::Plus => Ok(NodeModel::StringLiteral(a + b)),
            TokenModel::EqualEqual => Ok(NodeModel::NumberLiteral(bool_bits(a == b))),
            TokenModel::NotEqual => Ok(NodeModel::NumberLiteral(bool_bits(a != b))),
            _ => Err("Error: Unsupported operator for strings"@),
        },
        (NodeModel::StringLiteral(a), NodeModel::NumberLiteral(b)) => match op {
            TokenModel::Plus => Ok(NodeModel::StringLiteral(a + spec_render_number(b))),
            _ => Err("Error: Unsupported operator for string and number"@),
        },
        (NodeModel::NumberLiteral(a), NodeModel::StringLiteral(b)) => match op {
            TokenModel::Plus => Ok(NodeModel::StringLiteral(spec_render_number(a) + b)),
            _ => Err("Error: Unsupported operator for number and string"@),
        },
        _ => Err("Error: Invalid operands"@),
    }
}

/// 1.0 for true, 0.0 for false.
pub open spec fn bool_bits(b: bool) -> u64 {
    if b {
        NUM_ONE
    } else {
        NUM_ZERO
    }
}

/// Evaluates one expression: the state afterwards and the value. A dead
/// state stays as it is and yields 0.0.
pub open spec fn spec_eval(fuel: nat, n: NodeModel, env: EnvModel, st: EvalState) -> (
    EvalState,
    NodeModel,
)
    decreases fuel, n, 0int,
{
    if !st.live {
        (st, NodeModel::NumberLiteral(NUM_ZERO))
    } else {
        match n {
            NodeModel::NumberLiteral(_) => (st, n),
            NodeModel::StringLiteral(_) => (st, n),
            NodeModel::Identifier(name) => match env_lookup(env, name) {
                Some(v) => (st, v),
                None => (with_err(st, undef_var_msg(name)), NodeModel::NumberLiteral(NUM_ZERO)),
            },
            NodeModel::BinaryExpression { left, operator, right } => {
                let (st1, lv) = spec_eval(fuel, *left, env, st);
                let (st2, rv) = spec_eval(fuel, *right, env, st1);
                if !st2.live {
                    (st2, NodeModel::NumberLiteral(NUM_ZERO))
                } else {
                    match spec_binop(lv, operator, rv) {
                        Ok(v) => (st2, v),
                        Err(m) => (with_err(st2, m), NodeModel::NumberLiteral(NUM_ZERO)),
                    }
                }
            },
            NodeModel::FunctionCall { name, arguments } => spec_call(
                fuel,
                name,
                arguments,
                env,
                st,
            ),
            NodeModel::UnaryExpression { operator, operand } => {
                let (st1, v) = spec_eval(fuel, *operand, env, st);
                if !st1.live {
                    (st1, NodeModel::NumberLiteral(NUM_ZERO))
                } else {
                    match v {
                        NodeModel::NumberLiteral(b) => match operator {
                            TokenModel::Minus => (st1, NodeModel::NumberLiteral(neg_bits(b))),
                            TokenModel::Bang => (
                                st1,
                                NodeModel::NumberLiteral(bool_bits(eq_bits(b, NUM_ZERO))),
                            ),
                            _ => (
                                with_err(st1, "Error: Unsupported unary operator"@),
                                NodeModel::NumberLiteral(NUM_ZERO),
                            ),
                        },
                        _ => (
                            with_err(st1, "Error: Invalid operand for unary operator"@),
                            NodeModel::NumberLiteral(NUM_ZERO),
                        ),
                    }
                }
            },
            _ => (
                with_err(st, "Error: Unsupported AST node in evaluation"@),
                NodeModel::NumberLiteral(NUM_ZERO),
            ),
        }
    }
}

/// Evaluates the arguments in the caller's scope, in order, binding each
/// parameter in the fresh local scope.
pub open spec fn spec_bind_args(
    fuel: nat,
    params: Seq<Seq<char>>,
    args: Seq<NodeModel>,
    caller: EnvModel,
    local: EnvModel,
    st: EvalState,
) -> (EnvModel, EvalState)
    decreases fuel, args, 2int,
{
    if params.len() == 0 || args.len() == 0 {
        (local, st)
    } else {
        let (st1, v) = spec_eval(fuel, args[0], caller, st);
        let local2 = EnvModel {
            vars: local.vars.insert(params[0], v),
            enclosing: local.enclosing,
        };
        spec_bind_args(fuel, params.drop_first(), args.drop_first(), caller, local2, st1)
    }
}

/// Calls a function: looks it up, checks arity, binds arguments into a
/// fresh scope that captures a copy of the caller's, and executes the body
/// with one unit of call depth spent. The call's value is always 0.0:
/// functions have no return mechanism.
pub open spec fn spec_call(
    fuel: nat,
    name: Seq<char>,
    args: Seq<NodeModel>,
    env: EnvModel,
    st: EvalState,
) -> (EvalState, NodeModel)
    decreases fuel, args, 3int,
{
    if !st.live {
        (st, NodeModel::NumberLiteral(NUM_ZERO))
    } else if !st.funcs.contains_key(name) {
        (with_err(st, undef_fn_msg(name)), NodeModel::NumberLiteral(NUM_ZERO))
    } else {
        match st.funcs[name] {
            NodeModel::FunctionDeclaration { name: _, parameters, body } => {
                if args.len() != parameters.len() {
                    (with_err(st, arity_msg(name)), NodeModel::NumberLiteral(NUM_ZERO))
                } else if fuel == 0 {
                    (
                        EvalState {
                            funcs: st.funcs,
                            output: st.output,
                            errors: st.errors,
                            live: false,
                        },
                        NodeModel::NumberLiteral(NUM_ZERO),
                    )
                } else {
                    let local0 = EnvModel {
                        vars: Map::<Seq<char>, NodeModel>::empty(),
                        enclosing: Some(Box::new(env)),
                    };
                    let (local1, st1) = spec_bind_args(fuel, parameters, args, env, local0, st);
                    let (_, st2) = spec_exec_seq((fuel - 1) as nat, body, local1, st1);
                    (st2, NodeModel::NumberLiteral(NUM_ZERO))
                }
            },
            _ => (with_err(st, undef_fn_msg(name)), NodeModel::NumberLiteral(NUM_ZERO)),
        }
    }
}

/// Executes one statement. A dead state stays as it is.
pub open spec fn spec_execute(fuel: nat, n: NodeModel, env: EnvModel, st: EvalState) -> (
    EnvModel,
    EvalState,
)
    decreases fuel, n, 1int,
{
    if !st.live {
        (env, st)
    } else {
        match n {
            NodeModel::PrintStatement(e) => {
                let (st1, v) = spec_eval(fuel, *e, env, st);
                if !st1.live {
                    (env, st1)
                } else {
                    (
                        env,
                        EvalState {
                            funcs: st1.funcs,
                            output: st1.output.push(print_line(v)),
                            errors: st1.errors,
                            live: st1.live,
                        },
                    )
                }
            },
            NodeModel::VariableAssignment(name, e) => {
                let (st1, v) = spec_eval(fuel, *e, env, st);
                if !st1.live {
                    (env, st1)
                } else {
                    let (env2, ok) = env_assign_model(env, name, v);
                    if ok {
                        (env2, st1)
                    } else {
                        (EnvModel { vars: env.vars.insert(name, v), enclosing: env.enclosing }, st1)
                    }
                }
            },
            NodeModel::IfStatement { condition, then_branch, else_branch } => {
                let (st1, c) = spec_eval(fuel, *condition, env, st);
                if !st1.live {
                    (env, st1)
                } else if spec_truthy(c) {
                    let inner = EnvModel {
                        vars: Map::<Seq<char>, NodeModel>::empty(),
                        enclosing: Some(Box::new(env)),
                    };
                    let (_, st2) = spec_exec_seq(fuel, then_branch, inner, st1);
                    (env, st2)
                } else {
                    match else_branch {
                        Some(ss) => {
                            let inner = EnvModel {
                                vars: Map::<Seq<char>, NodeModel>::empty(),
                                enclosing: Some(Box::new(env)),
                            };
                            let (_, st2) = spec_exec_seq(fuel, ss, inner, st1);
                            (env, st2)
                        },
                        None => (env, st1),
                    }
                }
            },
            NodeModel::FunctionDeclaration { name, .. } => (
                env,
                EvalState {
                    funcs: st.funcs.insert(name, n),
                    output: st.output,
                    errors: st.errors,
                    live: st.live,
                },
            ),
            NodeModel::FunctionCall { name, arguments } => {
                let (st1, _) = spec_call(fuel, name, arguments, env, st);
                (env, st1)
            },
            _ => (env, st),
        }
    }
}

/// Executes a statement sequence in order, threading scope and state.
pub open spec fn spec_exec_seq(fuel: nat, ss: Seq<NodeModel>, env: EnvModel, st: EvalState) -> (
    EnvModel,
    EvalState,
)
    decreases fuel, ss, 2int,
{
    if ss.len() == 0 {
        (env, st)
    } else {
        let (env1, st1) = spec_execute(fuel, ss[0], env, st);
        spec_exec_seq(fuel, ss.drop_first(), env1, st1)
    }
}

/// Runs a whole program: a fresh global scope, an empty function table,
/// the statements in order.
pub open spec fn spec_interpret(ss: Seq<NodeModel>, fuel: nat) -> EvalState {
    let env0 = EnvModel { vars: Map::<Seq<char>, NodeModel>::empty(), enclosing: None };
    let st0 = EvalState {
        funcs: Map::<Seq<char>, NodeModel>::empty(),
        output: Seq::empty(),
        errors: Seq::empty(),
        live: true,
    };
    let (_, st) = spec_exec_seq(fuel, ss, env0, st0);
    st
}

} // verus!

verus! {

// ---------------------------------------------------------------------------
// The executable evaluator, proved to follow the specification evaluator.
// ---------------------------------------------------------------------------

/// The run's mutable machinery: the function table, the collected output
/// and diagnostics, and whether the run is still live.
pub struct Interp {
    pub functions: Bindings,
    pub output: Vec<String>,
    pub errors: Vec<String>,
    pub live: bool,
}

/// The views of collected lines.
pub open spec fn lines_view(v: Seq<String>) -> Seq<Seq<char>> {
    v.map_values(|s: String| s@)
}

/// The model of the run state.
pub open spec fn interp_model(m: Interp) -> EvalState {
    EvalState {
        funcs: bindings_model(m.functions),
        output: lines_view(m.output@),
        errors: lines_view(m.errors@),
        live: m.live,
    }
}

/// Appends one output line.
fn emit_out(m: &mut Interp, line: String)
    ensures
        interp_model(*final(m)) == (EvalState {
            funcs: interp_model(*old(m)).funcs,
            output: interp_model(*old(m)).output.push(line@),
            errors: interp_model(*old(m)).errors,
            live: interp_model(*old(m)).live,
        }),
{
    let ghost before = m.output@;
    m.output.push(line);
    proof {
        assert(lines_view(m.output@) =~= lines_view(before).push(m.output@.last()@));
    }
}

/// Appends one diagnostic line.
fn emit_err(m: &mut Interp, line: String)
    ensures
        interp_model(*final(m)) == with_err(interp_model(*old(m)), line@),
{
    let ghost before = m.errors@;
    m.errors.push(line);
    proof {
        assert(lines_view(m.errors@) =~= lines_view(before).push(m.errors@.last()@));
    }
}

/// Whether a value steers an if-statement into its then-branch.
pub fn is_truthy(value: &ASTNode) -> (r: bool)
    ensures
        r == spec_truthy(node_model(*value)),
{
    match value {
        ASTNode::NumberLiteral(b) => !num_eq(*b, NUM_ZERO),
        ASTNode::StringLiteral(s) => !s.as_str().is_empty(),
        _ => false,
    }
}

/// Applies a binary operator to two evaluated values, appending the
/// diagnostic and yielding 0.0 where the combination is unsupported.
fn apply_binop(l: ASTNode, op: &crate::lexer::Token, r: ASTNode, m: &mut Interp) -> (v: ASTNode)
    ensures
        ({
            let sr = spec_binop(node_model(l), op@, node_model(r));
            match sr {
                Ok(vm) => node_model(v) == vm && *final(m) == *old(m),
                Err(msg) => node_model(v) == NodeModel::NumberLiteral(NUM_ZERO) && interp_model(
                    *final(m),
                ) == with_err(interp_model(*old(m)), msg),
            }
        }),
{
    match (l, r) {
        (ASTNode::NumberLiteral(a), ASTNode::NumberLiteral(b)) => match op {
            crate::lexer::Token::Plus => ASTNode::NumberLiteral(num_add(a, b)),
            crate::lexer::Token::Minus => ASTNode::NumberLiteral(num_sub(a, b)),
            crate::lexer::Token::Star => ASTNode::NumberLiteral(num_mul(a, b)),
            crate::lexer::Token::Slash => ASTNode::NumberLiteral(num_div(a, b)),
            crate::lexer::Token::EqualEqual => ASTNode::NumberLiteral(
                if num_eq(a, b) {
                    NUM_ONE
                } else {
                    NUM_ZERO
                },
            ),
            crate::lexer::Token::NotEqual => ASTNode::NumberLiteral(
                if num_eq(a, b) {
                    NUM_ZERO
                } else {
                    NUM_ONE
                },
            ),
            crate::lexer::Token::LessThan => ASTNode::NumberLiteral(
                if num_lt(a, b) {
                    NUM_ONE
                } else {
                    NUM_ZERO
                },
            ),
            crate::lexer::Token::GreaterThan => ASTNode::NumberLiteral(
                if num_lt(b, a) {
                    NUM_ONE
                } else {
                    NUM_ZERO
                },
            ),
            crate::lexer::Token::LessEqual => ASTNode::NumberLiteral(
                if num_le(a, b) {
                    NUM_ONE
                } else {
                    NUM_ZERO
                },
            ),
            crate::lexer::Token::GreaterEqual => ASTNode::NumberLiteral(
                if num_le(b, a) {
                    NUM_ONE
                } else {
                    NUM_ZERO
                },
            ),
            _ => {
                emit_err(m, "Error: Unsupported operator".to_owned());
                ASTNode::NumberLiteral(NUM_ZERO)
            },
        },
        (ASTNode::StringLiteral(a), ASTNode::StringLiteral(b)) => match op {
            crate::lexer::Token::Plus => ASTNode::StringLiteral(
                str_concat(a.as_str(), b.as_str()),
            ),
            crate::lexer::Token::EqualEqual => ASTNode::NumberLiteral(
                if a.eq(&b) {
                    NUM_ONE
                } else {
                    NUM_ZERO
                },
            ),
            crate::lexer::Token::NotEqual => ASTNode::NumberLiteral(
                if a.eq(&b) {
                    NUM_ZERO
                } else {
                    NUM_ONE
                },
            ),
            _ => {
                emit_err(m, "Error: Unsupported operator for strings".to_owned());
                ASTNode::NumberLiteral(NUM_ZERO)
            },
        },
        (ASTNode::StringLiteral(a), ASTNode::NumberLiteral(b)) => match op {
            crate::lexer::Token::Plus => ASTNode::StringLiteral(
                str_concat(a.as_str(), render_number(b).as_str()),
            ),
            _ => {
                emit_err(m, "Error: Unsupported operator for string and number".to_owned());
                ASTNode::NumberLiteral(NUM_ZERO)
            },
        },
        (ASTNode::NumberLiteral(a), ASTNode::StringLiteral(b)) => match op {
            crate::lexer::Token::Plus => ASTNode::StringLiteral(
                str_concat(render_number(a).as_str(), b.as_str()),
            ),
            _ => {
                emit_err(m, "Error: Unsupported operator for number and string".to_owned());
                ASTNode::NumberLiteral(NUM_ZERO)
            },
        },
        _ => {
            emit_err(m, "Error: Invalid operands".to_owned());
            ASTNode::NumberLiteral(NUM_ZERO)
        },
    }
}

/// Evaluates one expression; runtime errors append a diagnostic and yield
/// 0.0, and execution goes on.
pub fn evaluate(node: &ASTNode, env: &Environment, m: &mut Interp, fuel: u64) -> (v: ASTNode)
    ensures
        ({
            let (st2, vm) = spec_eval(
                fuel as nat,
                node_model(*node),
                env_model(*env),
                interp_model(*old(m)),
            );
            interp_model(*final(m)) == st2 && node_model(v) == vm
        }),
    decreases fuel, *node, 0int,
{
    if !m.live {
        return ASTNode::NumberLiteral(NUM_ZERO);
    }
    match node {
        ASTNode::NumberLiteral(b) => ASTNode::NumberLiteral(*b),
        ASTNode::StringLiteral(s) => ASTNode::StringLiteral(s.clone()),
        ASTNode::Identifier(name) => match env.get(name.as_str()) {
            Some(v) => v,
            None => {
                let msg = str_concat(
                    str_concat("Error: Undefined variable '", name.as_str()).as_str(),
                    "'",
                );
                emit_err(m, msg);
                ASTNode::NumberLiteral(NUM_ZERO)
            },
        },
        ASTNode::BinaryExpression { left, operator, right } => {
            let lv = evaluate(left, env, m, fuel);
            let rv = evaluate(right, env, m, fuel);
            if !m.live {
                return ASTNode::NumberLiteral(NUM_ZERO);
            }
            apply_binop(lv, operator, rv, m)
        },
        ASTNode::FunctionCall { name, arguments } => run_call(name, arguments, env, m, fuel),
        ASTNode::UnaryExpression { operator, operand } => {
            let v = evaluate(operand, env, m, fuel);
            if !m.live {
                return ASTNode::NumberLiteral(NUM_ZERO);
            }
            match v {
                ASTNode::NumberLiteral(b) => match operator {
                    crate::lexer::Token::Minus => ASTNode::NumberLiteral(num_neg(b)),
                    crate::lexer::Token::Bang => ASTNode::NumberLiteral(
                        if num_eq(b, NUM_ZERO) {
                            NUM_ONE
                        } else {
                            NUM_ZERO
                        },
                    ),
                    _ => {
                        emit_err(m, "Error: Unsupported unary operator".to_owned());
                        ASTNode::NumberLiteral(NUM_ZERO)
                    },
                },
                _ => {
                    emit_err(m, "Error: Invalid operand for unary operator".to_owned());
                    ASTNode::NumberLiteral(NUM_ZERO)
                },
            }
        },
        _ => {
            emit_err(m, "Error: Unsupported AST node in evaluation".to_owned());
            ASTNode::NumberLiteral(NUM_ZERO)
        },
    }
}

/// Calls a function by name, as statement and expression form both do.
fn run_call(
    name: &String,
    arguments: &Vec<ASTNode>,
    env: &Environment,
    m: &mut Interp,
    fuel: u64,
) -> (v: ASTNode)
    ensures
        ({
            let (st2, vm) = spec_call(
                fuel as nat,
                name@,
                nodes_view(arguments@),
                env_model(*env),
                interp_model(*old(m)),
            );
            interp_model(*final(m)) == st2 && node_model(v) == vm
        }),
    decreases fuel, *arguments, 3int,
{
    if !m.live {
        return ASTNode::NumberLiteral(NUM_ZERO);
    }
    let decl = match m.functions.get(name.as_str()) {
        Some(d) => d,
        None => {
            let msg = str_concat(
                str_concat("Error: Undefined function '", name.as_str()).as_str(),
                "'",
            );
            emit_err(m, msg);
            return ASTNode::NumberLiteral(NUM_ZERO);
        },
    };
    match decl {
        ASTNode::FunctionDeclaration { name: _, parameters, body } => {
            if arguments.len() != parameters.len() {
                let msg = str_concat(
                    str_concat(
                        "Error: Incorrect number of arguments for function '",
                        name.as_str(),
                    ).as_str(),
                    "'",
                );
                emit_err(m, msg);
                return ASTNode::NumberLiteral(NUM_ZERO);
            }
            if fuel == 0 {
                m.live = false;
                return ASTNode::NumberLiteral(NUM_ZERO);
            }
            let mut local = Environment::new(Some(Box::new(env_dup(env))));
            let ghost callerm = env_model(*env);
            let ghost paramsm = strs_view(parameters@);
            let ghost argsm = nodes_view(arguments@);
            let ghost bind_target = spec_bind_args(
                fuel as nat,
                paramsm,
                argsm,
                callerm,
                env_model(local),
                interp_model(*m),
            );
            proof {
                assert(paramsm.skip(0) =~= paramsm);
                assert(argsm.skip(0) =~= argsm);
            }
            let mut k: usize = 0;
            while k < parameters.len()
                invariant
                    k <= parameters@.len(),
                    parameters@.len() == arguments@.len(),
                    paramsm == strs_view(parameters@),
                    argsm == nodes_view(arguments@),
                    callerm == env_model(*env),
                    bind_target == spec_bind_args(
                        fuel as nat,
                        paramsm.skip(k as int),
                        argsm.skip(k as int),
                        callerm,
                        env_model(local),
                        interp_model(*m),
                    ),
                decreases parameters@.len() - k,
            {
                let ghost pre_params = paramsm.skip(k as int);
                let ghost pre_args = argsm.skip(k as int);
                let arg_value = evaluate(&arguments[k], env, m, fuel);
                local.define(parameters[k].clone(), arg_value);
                k = k + 1;
                proof {
                    assert(pre_params[0] == paramsm[k - 1 as int]);
                    assert(pre_args[0] == argsm[k - 1 as int]);
                    assert(pre_params.drop_first() =~= paramsm.skip(k as int));
                    assert(pre_args.drop_first() =~= argsm.skip(k as int));
                }
            }
            proof {
                assert(paramsm.skip(paramsm.len() as int) =~= Seq::<Seq<char>>::empty());
                assert(argsm.skip(argsm.len() as int) =~= Seq::<NodeModel>::empty());
            }
            run_block(&body, &mut local, m, fuel - 1);
            ASTNode::NumberLiteral(NUM_ZERO)
        },
        _ => {
            let msg = str_concat(
                str_concat("Error: Undefined function '", name.as_str()).as_str(),
                "'",
            );
            emit_err(m, msg);
            ASTNode::NumberLiteral(NUM_ZERO)
        },
    }
}

/// Executes the statements of a block or body in order.
fn run_block(stmts: &Vec<ASTNode>, env: &mut Environment, m: &mut Interp, fuel: u64)
    ensures
        ({
            let (env2, st2) = spec_exec_seq(
                fuel as nat,
                nodes_view(stmts@),
                env_model(*old(env)),
                interp_model(*old(m)),
            );
            env_model(*final(env)) == env2 && interp_model(*final(m)) == st2
        }),
    decreases fuel, *stmts, 2int,
{
    let ghost ssm = nodes_view(stmts@);
    let ghost target = spec_exec_seq(fuel as nat, ssm, env_model(*env), interp_model(*m));
    proof {
        assert(ssm.skip(0) =~= ssm);
    }
    let mut j: usize = 0;
    while j < stmts.len()
        invariant
            j <= stmts@.len(),
            ssm == nodes_view(stmts@),
            target == spec_exec_seq(
                fuel as nat,
                ssm.skip(j as int),
                env_model(*env),
                interp_model(*m),
            ),
        decreases stmts@.len() - j,
    {
        let ghost pre = ssm.skip(j as int);
        execute(&stmts[j], env, m, fuel);
        j = j + 1;
        proof {
            assert(pre[0] == ssm[j - 1 as int]);
            assert(pre.drop_first() =~= ssm.skip(j as int));
        }
    }
    proof {
        assert(ssm.skip(ssm.len() as int) =~= Seq::<NodeModel>::empty());
    }
}

/// Executes one statement; runtime errors are non-fatal.
#[verifier::rlimit(100)]
pub fn execute(node: &ASTNode, env: &mut Environment, m: &mut Interp, fuel: u64)
    ensures
        ({
            let (env2, st2) = spec_execute(
                fuel as nat,
                node_model(*node),
                env_model(*old(env)),
                interp_model(*old(m)),
            );
            env_model(*final(env)) == env2 && interp_model(*final(m)) == st2
        }),
    decreases fuel, *node, 1int,
{
    if !m.live {
        return ;
    }
    match node {
        ASTNode::PrintStatement(expr) => {
            let value = evaluate(expr, env, m, fuel);
            if !m.live {
                return ;
            }
            let line = match value {
                ASTNode::StringLiteral(s) => s,
                ASTNode::NumberLiteral(b) => render_number(b),
                _ => "Cannot print value".to_owned(),
            };
            emit_out(m, line);
        },
        ASTNode::VariableAssignment(name, expr) => {
            let value = evaluate(expr, env, m, fuel);
            if !m.live {
                return ;
            }
            let dup = node_dup(&value);
            let ghost envm = env_model(*env);
            let ghost vm = node_model(dup);
            let assigned = env.assign(name.as_str(), dup);
            if !assigned {
                proof {
                    lemma_assign_miss(envm, name@, vm);
                }
                env.define(name.clone(), value);
            }
        },
        ASTNode::IfStatement { condition, then_branch, else_branch } => {
            let cond_value = evaluate(condition, env, m, fuel);
            if !m.live {
                return ;
            }
            if is_truthy(&cond_value) {
                let mut inner = Environment::new(Some(Box::new(env_dup(env))));
                run_block(then_branch, &mut inner, m, fuel);
            } else {
                match else_branch {
                    Some(ss) => {
                        let mut inner = Environment::new(Some(Box::new(env_dup(env))));
                        run_block(ss, &mut inner, m, fuel);
                    },
                    None => {},
                }
            }
        },
        ASTNode::FunctionDeclaration { name, .. } => {
            let decl = node_dup(node);
            m.functions.set(name.clone(), decl);
        },
        ASTNode::FunctionCall { name, arguments } => {
            let _ = run_call(name, arguments, env, m, fuel);
        },
        _ => {},
    }
}

/// Runs a whole program: a fresh global scope, an empty function table,
/// the statements in order. `fuel` bounds the depth of nested function
/// calls; past it the run stops and `live` is false.
pub fn interpret(ast_nodes: &Vec<ASTNode>, fuel: u64) -> (r: Interp)
    ensures
        interp_model(r) == spec_interpret(nodes_view(ast_nodes@), fuel as nat),
{
    let mut global_env = Environment::new(None);
    let mut m = Interp {
        functions: Bindings::new(),
        output: Vec::new(),
        errors: Vec::new(),
        live: true,
    };
    proof {
        assert(lines_view(Seq::<String>::empty()) =~= Seq::<Seq<char>>::empty());
    }
    run_block(ast_nodes, &mut global_env, &mut m, fuel);
    m
}

} // verus!

verus! {

// ---------------------------------------------------------------------------
// Laws of the scope model.
// ---------------------------------------------------------------------------

/// Executing an if-statement leaves the surrounding scope chain exactly as
/// it was, whatever the branches assigned: the block runs in a scope that
/// captured a copy, and that copy is discarded.
pub proof fn lemma_if_scope_isolated(fuel: nat, n: NodeModel, env: EnvModel, st: EvalState)
    requires
        n matches NodeModel::IfStatement { .. },
    ensures
        spec_execute(fuel, n, env, st).0 == env,
{
}

/// A function-call statement leaves the caller's scope chain exactly as it
/// was: arguments are read in it, but the body runs in a scope that
/// captured a copy.
pub proof fn lemma_call_scope_isolated(fuel: nat, n: NodeModel, env: EnvModel, st: EvalState)
    requires
        n matches NodeModel::FunctionCall { .. },
    ensures
        spec_execute(fuel, n, env, st).0 == env,
{
}

/// A function call evaluates to the number 0.0 on every path — found or
/// not, right or wrong arity, fuel or none: the language has no return
/// mechanism.
pub proof fn lemma_call_value_is_zero(
    fuel: nat,
    name: Seq<char>,
    args: Seq<NodeModel>,
    env: EnvModel,
    st: EvalState,
)
    ensures
        spec_call(fuel, name, args, env, st).1 == NodeModel::NumberLiteral(NUM_ZERO),
{
}

} // verus!
