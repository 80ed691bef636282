//! Rendering a reconstructed tree as Lua-like text.
use vstd::prelude::*;
use vstd::string::StringExecFns;

use crate::chunk::{Constants, Local};
use crate::error::DecodeError;
use crate::opcode::OpCode;
use crate::text::{
    decimal, indent_all, join, push_decimal, push_indented_lines, push_joined, push_repeated,
    push_signed_decimal, repeat, signed_decimal, views,
};
use crate::tree::{lemma_node_tree, tree_of, trees_of, Node, Tree};

verus! {

/// The decimal text of a number constant and of its negation. Formatting a
/// floating-point value is left to the caller.
#[derive(Debug)]
pub struct NumberText {
    pub text: String,
    pub negated: String,
}

/// What rendering needs besides the tree: local names, string constants, the
/// parameter count of each nested function, and the text of each number constant.
pub struct RenderEnv {
    pub locals: Seq<Seq<char>>,
    pub strings: Seq<Seq<char>>,
    pub params: Seq<i32>,
    pub numbers: Seq<(Seq<char>, Seq<char>)>,
}

pub open spec fn env_of(locals: Seq<Local>, constants: Constants, numbers: Seq<NumberText>) -> RenderEnv {
    RenderEnv {
        locals: locals.map_values(|l: Local| l.name@),
        strings: views(constants.strings@),
        params: constants.functions@.map_values(|f: crate::chunk::Function| f.param_count),
        numbers: numbers.map_values(|n: NumberText| (n.text@, n.negated@)),
    }
}

/// Why a node has no rendering: its opcode has no rendering yet (with its rendered
/// operands), or its operands do not fit the opcode.
pub enum RenderFault {
    Unsupported(OpCode, Seq<Seq<char>>),
    Invalid(OpCode),
}

/// The operator that a comparison jump skips its block on the negation of.
pub open spec fn inverted_comparison(op: OpCode) -> Seq<char> {
    match op {
        OpCode::JumpNotEqual => "=="@,
        OpCode::JumpEqual => "~="@,
        OpCode::JumpLessThan => ">="@,
        OpCode::JumpLessThanEqual => ">"@,
        OpCode::JumpGreaterThan => "<="@,
        _ => "<"@,
    }
}

pub open spec fn is_comparison_jump(op: OpCode) -> bool {
    32 <= op.spec_code() <= 37
}

/// `local_0, local_1, ...`, one name for each of `n` parameters.
pub open spec fn param_list(n: i32) -> Seq<char> {
    join(Seq::new(if n > 0 { n as nat } else { 0 }, |i: int| "local_"@ + decimal(i as nat)), ", "@)
}

/// The text of one instruction, given the texts of its children.
pub open spec fn render_op(ins: crate::instruction::Instruction, kids: Seq<Seq<char>>, env: RenderEnv) -> Result<
    Seq<char>,
    RenderFault,
> {
    let op = ins.spec_op();
    let u = ins.spec_u() as int;
    let bad = Err::<Seq<char>, RenderFault>(RenderFault::Invalid(op));
    match op {
        OpCode::End => Ok(Seq::empty()),
        OpCode::Return => Ok("return "@ + join(kids, ", "@)),
        OpCode::Call => if kids.len() == 0 {
            bad
        } else {
            Ok(kids.last() + "("@ + join(kids.drop_last(), ", "@) + ")"@)
        },
        OpCode::PushNil => Ok(repeat("nil"@, u as nat)),
        OpCode::PushInt => Ok(signed_decimal(ins.spec_s())),
        OpCode::PushString => if u < env.strings.len() {
            Ok("\""@ + env.strings[u] + "\""@)
        } else {
            bad
        },
        OpCode::PushNumber => if u < env.numbers.len() {
            Ok(env.numbers[u].0)
        } else {
            bad
        },
        OpCode::PushNegativeNumber => if u < env.numbers.len() {
            Ok(env.numbers[u].1)
        } else {
            bad
        },
        OpCode::GetLocal => if u < env.locals.len() {
            Ok(env.locals[u])
        } else {
            Ok("local_"@ + decimal(u as nat))
        },
        OpCode::GetGlobal => if u < env.strings.len() {
            Ok(env.strings[u])
        } else {
            bad
        },
        OpCode::GetDotted => if kids.len() >= 1 && u < env.strings.len() {
            Ok(kids[0] + "."@ + env.strings[u])
        } else {
            bad
        },
        OpCode::PushSelf => if kids.len() >= 1 && u < env.strings.len() {
            Ok(kids[0] + ":"@ + env.strings[u])
        } else {
            bad
        },
        OpCode::CreateTable => if u > 0 {
            Ok("{n="@ + decimal(u as nat) + "}"@)
        } else {
            Ok("{}"@)
        },
        OpCode::SetGlobal => if kids.len() >= 1 && u < env.strings.len() {
            Ok(env.strings[u] + " = "@ + kids[0])
        } else {
            bad
        },
        OpCode::SetTable => if kids.len() >= 3 {
            Ok(kids[2] + "["@ + kids[1] + "] = "@ + kids[0])
        } else {
            bad
        },
        OpCode::AddInt => if kids.len() >= 1 {
            Ok(kids[0] + " + "@ + signed_decimal(ins.spec_s()))
        } else {
            bad
        },
        OpCode::JumpNotEqual | OpCode::JumpEqual | OpCode::JumpLessThan | OpCode::JumpLessThanEqual
        | OpCode::JumpGreaterThan | OpCode::JumpGreaterThanEqual => if kids.len() >= 2 {
            Ok(
                "if ("@ + kids[1] + " "@ + inverted_comparison(op) + " "@ + kids[0] + ") then\n  "@
                    + join(indent_all(kids.skip(2)), "\n  "@) + "\nend"@,
            )
        } else {
            bad
        },
        OpCode::JumpIfTrue | OpCode::JumpIfFalse => if kids.len() >= 1 {
            Ok(
                "if ("@ + (if op == OpCode::JumpIfTrue {
                    "not "@
                } else {
                    Seq::empty()
                }) + " "@ + kids[0] + ") then\n  "@ + join(indent_all(kids.skip(1)), "\n  "@)
                    + "\nend"@,
            )
        } else {
            bad
        },
        OpCode::Closure => if (ins.spec_a() as int) < env.params.len() {
            Ok(
                "function("@ + param_list(env.params[ins.spec_a() as int]) + ")\n"@ + join(
                    kids,
                    "\n"@,
                ) + "\nend"@,
            )
        } else {
            bad
        },
        _ => Err(RenderFault::Unsupported(op, kids)),
    }
}

/// The text of a tree: its children first, then the node itself.
pub open spec fn render(t: Tree, env: RenderEnv) -> Result<Seq<char>, RenderFault>
    decreases t,
{
    match render_all(t.children, env) {
        Err(f) => Err(f),
        Ok(kids) => render_op(t.instruction, kids, env),
    }
}

/// The texts of a sequence of trees, or the fault of the first that has none.
pub open spec fn render_all(ts: Seq<Tree>, env: RenderEnv) -> Result<Seq<Seq<char>>, RenderFault>
    decreases ts,
{
    if ts.len() == 0 {
        Ok(Seq::empty())
    } else {
        match render_all(ts.drop_last(), env) {
            Err(f) => Err(f),
            Ok(xs) => match render(ts.last(), env) {
                Err(f) => Err(f),
                Ok(x) => Ok(xs.push(x)),
            },
        }
    }
}

/// Whether an exec rendering result is the text or fault `spec` stands for.
pub open spec fn same_text(r: Result<String, DecodeError>, spec: Result<Seq<char>, RenderFault>) -> bool {
    match r {
        Ok(t) => spec == Ok::<Seq<char>, RenderFault>(t@),
        Err(DecodeError::UnsupportedOpcode { op, children }) => spec == Err::<Seq<char>, RenderFault>(
            RenderFault::Unsupported(op, views(children@)),
        ),
        Err(DecodeError::InvalidOperand { op }) => spec == Err::<Seq<char>, RenderFault>(
            RenderFault::Invalid(op),
        ),
        Err(_) => false,
    }
}

/// Appends the parameter list of a closure with `n` parameters.
fn push_param_list(out: &mut String, n: i32)
    ensures
        final(out)@ == old(out)@ + param_list(n),
{
    let ghost names = Seq::new(if n > 0 { n as nat } else { 0 }, |i: int| "local_"@ + decimal(i as nat));
    let mut i: i32 = 0;
    assert(names.take(0) =~= Seq::<Seq<char>>::empty());
    while i < n
        invariant
            0 <= i,
            i <= n || n < 0,
            n < 0 ==> i == 0,
            names == Seq::new(if n > 0 { n as nat } else { 0 }, |i: int| "local_"@ + decimal(i as nat)),
            out@ == old(out)@ + join(names.take(i as int), ", "@),
        decreases n - i,
    {
        proof {
            assert(names.take(i + 1).drop_last() =~= names.take(i as int));
        }
        if i > 0 {
            out.append(", ");
        }
        out.append("local_");
        push_decimal(out, i as u64);
        assert(out@ =~= old(out)@ + join(names.take(i + 1), ", "@));
        i = i + 1;
    }
    assert(names.take(i as int) =~= names);
}

/// Renders one instruction whose children are already rendered as `kids`.
fn render_instruction(
    ins: crate::instruction::Instruction,
    kids: Vec<String>,
    locals: &Vec<Local>,
    constants: &Constants,
    numbers: &Vec<NumberText>,
) -> (r: Result<String, DecodeError>)
    ensures
        same_text(r, render_op(ins, views(kids@), env_of(locals@, *constants, numbers@))),
{
    let ghost env = env_of(locals@, *constants, numbers@);
    let ghost ks = views(kids@);
    let op = ins.op();
    let mut out = String::new();
    match op {
        OpCode::End => {},
        OpCode::Return => {
            out.append("return ");
            push_joined(&mut out, &kids, 0, ", ");
            assert(ks.skip(0) =~= ks);
        },
        OpCode::Call => {
            if kids.len() == 0 {
                return Err(DecodeError::InvalidOperand { op });
            }
            let last = kids.len() - 1;
            out.append(kids[last].as_str());
            out.append("(");
            let mut args = kids;
            args.pop();
            push_joined(&mut out, &args, 0, ", ");
            out.append(")");
            assert(views(args@).skip(0) =~= ks.drop_last());
        },
        OpCode::PushNil => {
            push_repeated(&mut out, "nil", ins.u());
        },
        OpCode::PushInt => {
            push_signed_decimal(&mut out, ins.s());
        },
        OpCode::PushString => {
            let u = ins.u();
            if u >= constants.strings.len() as u64 {
                return Err(DecodeError::InvalidOperand { op });
            }
            out.append("\"");
            out.append(constants.strings[u as usize].as_str());
            out.append("\"");
        },
        OpCode::PushNumber | OpCode::PushNegativeNumber => {
            let u = ins.u();
            if u >= numbers.len() as u64 {
                return Err(DecodeError::InvalidOperand { op });
            }
            if op == OpCode::PushNumber {
                out.append(numbers[u as usize].text.as_str());
            } else {
                out.append(numbers[u as usize].negated.as_str());
            }
        },
        OpCode::GetLocal => {
            let u = ins.u();
            if u < locals.len() as u64 {
                out.append(locals[u as usize].name.as_str());
            } else {
                out.append("local_");
                push_decimal(&mut out, u);
            }
        },
        OpCode::GetGlobal => {
            let u = ins.u();
            if u >= constants.strings.len() as u64 {
                return Err(DecodeError::InvalidOperand { op });
            }
            out.append(constants.strings[u as usize].as_str());
        },
        OpCode::GetDotted | OpCode::PushSelf => {
            let u = ins.u();
            if kids.len() < 1 || u >= constants.strings.len() as u64 {
                return Err(DecodeError::InvalidOperand { op });
            }
            out.append(kids[0].as_str());
            if op == OpCode::GetDotted {
                out.append(".");
            } else {
                out.append(":");
            }
            out.append(constants.strings[u as usize].as_str());
        },
        OpCode::CreateTable => {
            let u = ins.u();
            if u > 0 {
                out.append("{n=");
                push_decimal(&mut out, u);
                out.append("}");
            } else {
                out.append("{}");
            }
        },
        OpCode::SetGlobal => {
            let u = ins.u();
            if kids.len() < 1 || u >= constants.strings.len() as u64 {
                return Err(DecodeError::InvalidOperand { op });
            }
            out.append(constants.strings[u as usize].as_str());
            out.append(" = ");
            out.append(kids[0].as_str());
        },
        OpCode::SetTable => {
            if kids.len() < 3 {
                return Err(DecodeError::InvalidOperand { op });
            }
            out.append(kids[2].as_str());
            out.append("[");
            out.append(kids[1].as_str());
            out.append("] = ");
            out.append(kids[0].as_str());
        },
        OpCode::AddInt => {
            if kids.len() < 1 {
                return Err(DecodeError::InvalidOperand { op });
            }
            out.append(kids[0].as_str());
            out.append(" + ");
            push_signed_decimal(&mut out, ins.s());
        },
        OpCode::JumpNotEqual | OpCode::JumpEqual | OpCode::JumpLessThan | OpCode::JumpLessThanEqual
        | OpCode::JumpGreaterThan | OpCode::JumpGreaterThanEqual => {
            if kids.len() < 2 {
                return Err(DecodeError::InvalidOperand { op });
            }
            let symbol = match op {
                OpCode::JumpNotEqual => "==",
                OpCode::JumpEqual => "~=",
                OpCode::JumpLessThan => ">=",
                OpCode::JumpLessThanEqual => ">",
                OpCode::JumpGreaterThan => "<=",
                _ => "<",
            };
            out.append("if (");
            out.append(kids[1].as_str());
            out.append(" ");
            out.append(symbol);
            out.append(" ");
            out.append(kids[0].as_str());
            out.append(") then\n  ");
            push_indented_lines(&mut out, &kids, 2);
            out.append("\nend");
        },
        OpCode::JumpIfTrue | OpCode::JumpIfFalse => {
            if kids.len() < 1 {
                return Err(DecodeError::InvalidOperand { op });
            }
            out.append("if (");
            if op == OpCode::JumpIfTrue {
                out.append("not ");
            }
            out.append(" ");
            out.append(kids[0].as_str());
            out.append(") then\n  ");
            push_indented_lines(&mut out, &kids, 1);
            out.append("\nend");
        },
        OpCode::Closure => {
            let a = ins.a();
            if a >= constants.functions.len() as u64 {
                return Err(DecodeError::InvalidOperand { op });
            }
            out.append("function(");
            push_param_list(&mut out, constants.functions[a as usize].param_count);
            out.append(")\n");
            push_joined(&mut out, &kids, 0, "\n");
            out.append("\nend");
            assert(ks.skip(0) =~= ks);
        },
        _ => {
            return Err(DecodeError::UnsupportedOpcode { op, children: kids });
        },
    }
    assert(render_op(ins, ks, env) == Ok::<Seq<char>, RenderFault>(out@)) by {
        assert(out@ =~= render_op(ins, ks, env)->Ok_0);
    }
    Ok(out)
}

proof fn lemma_render_all_err(ts: Seq<Tree>, k: int, env: RenderEnv)
    requires
        0 <= k <= ts.len(),
        render_all(ts.take(k), env) is Err,
    ensures
        render_all(ts, env) == render_all(ts.take(k), env),
    decreases ts.len() - k,
{
    if k == ts.len() {
        assert(ts.take(k) =~= ts);
    } else {
        assert(ts.take(k + 1).drop_last() =~= ts.take(k));
        lemma_render_all_err(ts, k + 1, env);
    }
}

/// Renders a node as text, its children first: literals, names, calls, assignments,
/// and forward jumps as `if` blocks around the statements they skip. An opcode with
/// no rendering yet fails with `UnsupportedOpcode`; operands that do not fit the
/// opcode fail with `InvalidOperand`. `numbers` holds the text of each number constant.
pub fn process_node(
    node: &Node,
    locals: &Vec<Local>,
    constants: &Constants,
    numbers: &Vec<NumberText>,
) -> (r: Result<String, DecodeError>)
    ensures
        same_text(r, render(tree_of(*node), env_of(locals@, *constants, numbers@))),
    decreases node,
{
    let ghost env = env_of(locals@, *constants, numbers@);
    let ghost ts = trees_of(node.children@);
    proof {
        lemma_node_tree(*node);
    }
    let mut kids: Vec<String> = Vec::new();
    let mut i: usize = 0;
    assert(ts.take(0) =~= Seq::<Tree>::empty());
    assert(views(kids@) =~= Seq::<Seq<char>>::empty());
    while i < node.children.len()
        invariant
            0 <= i <= node.children.len(),
            ts == trees_of(node.children@),
            env == env_of(locals@, *constants, numbers@),
            render_all(ts.take(i as int), env) == Ok::<Seq<Seq<char>>, RenderFault>(views(kids@)),
        decreases node.children.len() - i,
    {
        let ghost before = kids@;
        assert(ts.take(i + 1).drop_last() =~= ts.take(i as int));
        match process_node(&node.children[i], locals, constants, numbers) {
            Err(e) => {
                proof {
                    assert(ts.take(i + 1).last() == tree_of(node.children@[i as int]));
                    assert(render(tree_of(node.children@[i as int]), env) is Err);
                    assert(render_all(ts.take(i + 1), env) == Err::<Seq<Seq<char>>, RenderFault>(
                        render(tree_of(node.children@[i as int]), env)->Err_0,
                    ));
                    lemma_render_all_err(ts, i + 1, env);
                    assert(tree_of(*node).children == ts);
                    assert(render(tree_of(*node), env) == Err::<Seq<char>, RenderFault>(
                        render(tree_of(node.children@[i as int]), env)->Err_0,
                    ));
                }
                return Err(e);
            },
            Ok(t) => {
                kids.push(t);
                assert(views(kids@) =~= views(before).push(t@));
            },
        }
        i = i + 1;
    }
    assert(ts.take(i as int) =~= ts);
    render_instruction(node.instruction, kids, locals, constants, numbers)
}

} // verus!
