//! Rebuilding statement and expression trees from a flat instruction array.
//!
//! Instructions are read in program order while a stack of pending values is kept:
//! each instruction takes its operands from the top of that stack, a forward jump
//! takes the instructions it skips as a nested block, and the finished node either
//! becomes a pending value (when it pushes) or a statement of the block.
//!
//! Backward jumps are not expanded: they stay leaf nodes. Table fills (`SetList`,
//! `SetMap`) and tail calls have no modelled stack effect, and a block holding one
//! fails with `UnmodelledEffect` rather than guess.
use vstd::prelude::*;

use crate::error::DecodeError;
use crate::instruction::Instruction;

verus! {

/// The mathematical form of a [`Node`]: an instruction and its subtrees.
pub struct Tree {
    pub instruction: Instruction,
    pub children: Seq<Tree>,
}

/// One reconstructed syntax element: an instruction and the nodes it consumed,
/// followed, for a forward jump, by the statements of the block it skips.
#[derive(Debug)]
pub struct Node {
    pub instruction: Instruction,
    pub children: Vec<Node>,
}

/// The tree that a node stands for.
pub open spec fn tree_of(n: Node) -> Tree
    decreases n,
{
    Tree {
        instruction: n.instruction,
        children: Seq::new(
            n.children.len() as nat,
            |i: int|
                if 0 <= i < n.children.len() {
                    tree_of(n.children[i])
                } else {
                    Tree { instruction: n.instruction, children: Seq::empty() }
                },
        ),
    }
}

/// The trees that a sequence of nodes stands for.
pub open spec fn trees_of(ns: Seq<Node>) -> Seq<Tree> {
    ns.map_values(|n: Node| tree_of(n))
}

/// The number of instructions in a forest.
pub open spec fn forest_size(ts: Seq<Tree>) -> nat
    decreases ts,
{
    if ts.len() == 0 {
        0
    } else {
        forest_size(ts.drop_last()) + tree_size(ts.last())
    }
}

/// The number of instructions in a tree.
pub open spec fn tree_size(t: Tree) -> nat
    decreases t,
{
    1 + forest_size(t.children)
}

/// Takes operands off the top of `pending` until their pushes cover `need`
/// values: the operands, topmost first, and what stays pending; `None` when
/// `pending` runs out first.
pub open spec fn take_operands(pending: Seq<Tree>, need: nat) -> Option<(Seq<Tree>, Seq<Tree>)>
    decreases pending.len(),
{
    if need == 0 {
        Some((Seq::empty(), pending))
    } else if pending.len() == 0 {
        None
    } else {
        let top = pending.last();
        let pushed = top.instruction.spec_push_count();
        let rest_need: nat = if pushed >= need {
            0
        } else {
            (need - pushed) as nat
        };
        match take_operands(pending.drop_last(), rest_need) {
            None => None,
            Some((more, rest)) => Some((seq![top] + more, rest)),
        }
    }
}

/// Whether `ins` is a forward jump, whose skipped instructions form a nested block.
pub open spec fn is_forward_jump(ins: Instruction) -> bool {
    ins.spec_op().spec_is_jump() && ins.spec_s() > 0
}

/// The statements of the block `code[lo..hi]`, given the values still pending
/// and the statements already finished.
pub open spec fn build_block(
    code: Seq<Instruction>,
    lo: int,
    hi: int,
    pending: Seq<Tree>,
    done: Seq<Tree>,
) -> Result<Seq<Tree>, DecodeError>
    decreases hi - lo,
{
    if lo >= hi {
        if pending.len() == 0 {
            Ok(done)
        } else {
            Err(DecodeError::MalformedChunk { offset: hi as usize })
        }
    } else {
        let ins = code[lo];
        match ins.spec_pop_count() {
            None => Err(DecodeError::UnmodelledEffect { index: lo as usize }),
            Some(pop) => match take_operands(pending, pop) {
                None => Err(DecodeError::MalformedChunk { offset: lo as usize }),
                Some((operands, rest)) => {
                    if is_forward_jump(ins) && ins.spec_s() > hi - lo - 1 {
                        Err(DecodeError::MalformedChunk { offset: lo as usize })
                    } else {
                        let next = if is_forward_jump(ins) {
                            lo + 1 + ins.spec_s()
                        } else {
                            lo + 1
                        };
                        let body = if is_forward_jump(ins) {
                            build_block(code, lo + 1, next, Seq::empty(), Seq::empty())
                        } else {
                            Ok(Seq::empty())
                        };
                        match body {
                            Err(e) => Err(e),
                            Ok(stmts) => {
                                let node = Tree { instruction: ins, children: operands + stmts };
                                if ins.spec_push_count() != 0 {
                                    build_block(code, next, hi, rest.push(node), done)
                                } else {
                                    build_block(code, next, hi, rest, done.push(node))
                                }
                            },
                        }
                    }
                },
            },
        }
    }
}

/// The forest of a whole instruction array.
pub open spec fn forest(code: Seq<Instruction>) -> Result<Seq<Tree>, DecodeError> {
    build_block(code, 0, code.len() as int, Seq::empty(), Seq::empty())
}

/// Whether an exec result of the tree builder is the forest `spec` stands for.
pub open spec fn same_forest(
    r: Result<Vec<Node>, DecodeError>,
    spec: Result<Seq<Tree>, DecodeError>,
) -> bool {
    match r {
        Ok(v) => spec == Ok::<Seq<Tree>, DecodeError>(trees_of(v@)),
        Err(e) => spec == Err::<Seq<Tree>, DecodeError>(e),
    }
}

/// A node's tree holds its instruction and the trees of its children.
pub proof fn lemma_node_tree(n: Node)
    ensures
        tree_of(n) == (Tree { instruction: n.instruction, children: trees_of(n.children@) }),
{
    assert(tree_of(n).children =~= trees_of(n.children@));
}

/// Takes the operands of one instruction off `pending`.
fn take_operands_exec(pending: &mut Vec<Node>, need: u64) -> (r: Option<Vec<Node>>)
    ensures
        match take_operands(trees_of(old(pending)@), need as nat) {
            None => r is None,
            Some((operands, rest)) => r matches Some(v) && trees_of(v@) == operands && trees_of(
                final(pending)@,
            ) == rest,
        },
    decreases old(pending).len(),
{
    if need == 0 {
        return Some(Vec::new());
    }
    let ghost before = trees_of(pending@);
    match pending.pop() {
        None => {
            assert(before.len() == 0);
            None
        },
        Some(top) => {
            proof {
                assert(trees_of(pending@) =~= before.drop_last());
                lemma_node_tree(top);
            }
            let pushed = top.instruction.push_count();
            let rest_need = if pushed >= need {
                0
            } else {
                need - pushed
            };
            match take_operands_exec(pending, rest_need) {
                None => None,
                Some(more) => {
                    let ghost more_trees = trees_of(more@);
                    let mut operands = Vec::new();
                    operands.push(top);
                    let mut more = more;
                    operands.append(&mut more);
                    proof {
                        assert(trees_of(operands@) =~= seq![tree_of(top)] + more_trees);
                    }
                    Some(operands)
                },
            }
        },
    }
}

/// Builds the statements of the block `code[lo..hi]`.
fn build_block_exec(code: &Vec<Instruction>, lo: usize, hi: usize) -> (r: Result<Vec<Node>, DecodeError>)
    requires
        lo <= hi <= code.len(),
    ensures
        same_forest(r, build_block(code@, lo as int, hi as int, Seq::empty(), Seq::empty())),
    decreases hi - lo,
{
    let mut pending: Vec<Node> = Vec::new();
    let mut done: Vec<Node> = Vec::new();
    let mut i: usize = lo;
    proof {
        assert(trees_of(pending@) =~= Seq::<Tree>::empty());
        assert(trees_of(done@) =~= Seq::<Tree>::empty());
    }
    while i < hi
        invariant
            lo <= i <= hi <= code.len(),
            build_block(code@, lo as int, hi as int, Seq::empty(), Seq::empty()) == build_block(
                code@,
                i as int,
                hi as int,
                trees_of(pending@),
                trees_of(done@),
            ),
        decreases hi - i,
    {
        let ins = code[i];
        let pop = match ins.pop_count() {
            None => return Err(DecodeError::UnmodelledEffect { index: i }),
            Some(p) => p,
        };
        let ghost pending_before = trees_of(pending@);
        let mut operands = match take_operands_exec(&mut pending, pop) {
            None => return Err(DecodeError::MalformedChunk { offset: i }),
            Some(v) => v,
        };
        let ghost operand_trees = trees_of(operands@);
        let mut next = i + 1;
        let jumps = ins.op().is_jump() && ins.s() > 0;
        assert(jumps == is_forward_jump(ins));
        if jumps {
            let s = ins.s();
            if s as u64 > (hi - i - 1) as u64 {
                return Err(DecodeError::MalformedChunk { offset: i });
            }
            next = i + 1 + s as usize;
            let mut body = match build_block_exec(code, i + 1, next) {
                Err(e) => return Err(e),
                Ok(b) => b,
            };
            let ghost body_trees = trees_of(body@);
            operands.append(&mut body);
            proof {
                assert(trees_of(operands@) =~= operand_trees + body_trees);
            }
        } else {
            proof {
                assert(trees_of(operands@) =~= operand_trees + Seq::<Tree>::empty());
            }
        }
        let node = Node { instruction: ins, children: operands };
        proof {
            lemma_node_tree(node);
        }
        if ins.push_count() != 0 {
            let ghost old_pending = pending@;
            pending.push(node);
            proof {
                assert(trees_of(pending@) =~= trees_of(old_pending).push(tree_of(node)));
            }
        } else {
            let ghost old_done = done@;
            done.push(node);
            proof {
                assert(trees_of(done@) =~= trees_of(old_done).push(tree_of(node)));
            }
        }
        i = next;
    }
    if pending.len() != 0 {
        return Err(DecodeError::MalformedChunk { offset: hi });
    }
    Ok(done)
}

/// Rebuilds the forest of statements of one function body from its instructions.
/// Fails when an instruction needs more values than are pending, jumps past the end
/// of its block, has an unmodelled stack effect, or values are left pending.
pub fn to_nodes(instructions: Vec<Instruction>) -> (r: Result<Vec<Node>, DecodeError>)
    ensures
        same_forest(r, forest(instructions@)),
{
    build_block_exec(&instructions, 0, instructions.len())
}

/// The values that a sequence of pending trees pushes in all.
pub open spec fn pushed_total(pending: Seq<Tree>) -> nat
    decreases pending.len(),
{
    if pending.len() == 0 {
        0
    } else {
        pushed_total(pending.drop_last()) + pending.last().instruction.spec_push_count()
    }
}

/// An instruction never takes more operands than are pending: where the pending
/// values push fewer than it needs, taking its operands fails.
pub proof fn lemma_underflow_fails(pending: Seq<Tree>, need: nat)
    requires
        pushed_total(pending) < need,
    ensures
        take_operands(pending, need) is None,
    decreases pending.len(),
{
    if pending.len() > 0 {
        let pushed = pending.last().instruction.spec_push_count();
        let rest_need: nat = if pushed >= need {
            0
        } else {
            (need - pushed) as nat
        };
        lemma_underflow_fails(pending.drop_last(), rest_need);
    }
}

/// At every step of the builder, in every block: an instruction that pops more values
/// than the pending values push in all makes the block fail at that instruction, with
/// no forest.
pub proof fn lemma_unbalanced_step_fails(
    code: Seq<Instruction>,
    lo: int,
    hi: int,
    pending: Seq<Tree>,
    done: Seq<Tree>,
)
    requires
        0 <= lo < hi <= code.len(),
        code[lo].spec_pop_count() matches Some(p) && pushed_total(pending) < p,
    ensures
        build_block(code, lo, hi, pending, done) == Err::<Seq<Tree>, DecodeError>(
            DecodeError::MalformedChunk { offset: lo as usize },
        ),
{
    lemma_underflow_fails(pending, code[lo].spec_pop_count()->0);
}

/// An array whose second instruction pops two or more values while only one
/// value, pushed by the first, is pending, fails at the second instruction.
pub proof fn lemma_unbalanced_pair_fails(code: Seq<Instruction>)
    requires
        code.len() >= 2,
        code[0].spec_pop_count() == Some(0nat),
        code[0].spec_push_count() == 1,
        !is_forward_jump(code[0]),
        code[1].spec_pop_count() matches Some(p) && p >= 2,
    ensures
        forest(code) == Err::<Seq<Tree>, DecodeError>(DecodeError::MalformedChunk { offset: 1 }),
{
    assert(Seq::<Tree>::empty() + Seq::<Tree>::empty() =~= Seq::<Tree>::empty());
    let first = Tree { instruction: code[0], children: Seq::empty() };
    let pending = Seq::<Tree>::empty().push(first);
    assert(take_operands(Seq::empty(), 0) == Some((Seq::<Tree>::empty(), Seq::<Tree>::empty())));
    assert(pushed_total(pending.drop_last()) == 0);
    lemma_underflow_fails(pending, code[1].spec_pop_count()->0);
    let n = code.len() as int;
    assert(build_block(code, 1, n, pending, Seq::empty()) == Err::<Seq<Tree>, DecodeError>(
        DecodeError::MalformedChunk { offset: 1 },
    ));
    assert(forest(code) == build_block(code, 1, n, pending, Seq::empty()));
}

/// The forest depends on the instruction array alone: two runs of the builder
/// on the same array agree, in their forests or in their errors.
pub proof fn lemma_to_nodes_deterministic(
    code: Seq<Instruction>,
    r1: Result<Vec<Node>, DecodeError>,
    r2: Result<Vec<Node>, DecodeError>,
)
    requires
        same_forest(r1, forest(code)),
        same_forest(r2, forest(code)),
    ensures
        match (r1, r2) {
            (Ok(a), Ok(b)) => trees_of(a@) == trees_of(b@),
            (Err(e1), Err(e2)) => e1 == e2,
            _ => false,
        },
{
}

proof fn lemma_forest_prefix(ts: Seq<Tree>, i: int)
    requires
        0 <= i < ts.len(),
    ensures
        forest_size(ts.take(i)) + tree_size(ts[i]) <= forest_size(ts),
        forest_size(ts.take(i + 1)) == forest_size(ts.take(i)) + tree_size(ts[i]),
    decreases ts.len(),
{
    assert(ts.take(i + 1).drop_last() =~= ts.take(i));
    if i < ts.len() - 1 {
        lemma_forest_prefix(ts.drop_last(), i);
        assert(ts.drop_last().take(i) =~= ts.take(i));
    } else {
        assert(ts.take(i) =~= ts.drop_last());
    }
}

impl Node {
    /// The number of instructions in the tree under this node, itself included.
    pub fn instruction_count(&self) -> (r: usize)
        requires
            tree_size(tree_of(*self)) <= usize::MAX,
        ensures
            r == tree_size(tree_of(*self)),
        decreases self,
    {
        proof {
            lemma_node_tree(*self);
        }
        let ghost ts = trees_of(self.children@);
        let mut sum: usize = 1;
        let mut i: usize = 0;
        while i < self.children.len()
            invariant
                0 <= i <= self.children.len(),
                ts == trees_of(self.children@),
                tree_size(tree_of(*self)) == 1 + forest_size(ts),
                tree_size(tree_of(*self)) <= usize::MAX,
                sum == 1 + forest_size(ts.take(i as int)),
            decreases self.children.len() - i,
        {
            proof {
                lemma_forest_prefix(ts, i as int);
            }
            let c = self.children[i].instruction_count();
            sum = sum + c;
            i = i + 1;
        }
        assert(ts.take(i as int) =~= ts);
        sum
    }
}

} // verus!
