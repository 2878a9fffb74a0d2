//! The AST node arena: owns all node storage and hands out opaque handles.
//! Handles are stable for the pool's lifetime, so nodes may refer to nodes
//! created later without ownership cycles.

use vstd::prelude::*;
use crate::ast::AstNode;
use crate::parser::{Parser, Rule};
use crate::source::{SrcPool, Logger};

verus! {

/// The arena. A handle is an index into it; a handle is valid only for the
/// pool that produced it.
pub struct NodePool {
    nodes: Vec<AstNode>,
}

impl NodePool {
    /// The nodes stored so far, in insertion order.
    pub closed spec fn view(&self) -> Seq<AstNode> {
        self.nodes@
    }

    pub fn new() -> (r: NodePool)
        ensures
            r@.len() == 0,
    {
        NodePool { nodes: Vec::new() }
    }

    pub fn len(&self) -> (r: usize)
        ensures
            r == self@.len(),
    {
        self.nodes.len()
    }

    /// Stores a node and returns its handle. Existing handles stay valid
    /// and keep naming the same nodes.
    pub fn add(&mut self, n: AstNode) -> (h: usize)
        ensures
            final(self)@ == old(self)@.push(n),
            h == old(self)@.len(),
    {
        let h = self.nodes.len();
        self.nodes.push(n);
        h
    }

    /// Reads the node a handle names.
    pub fn get(&self, h: usize) -> (r: &AstNode)
        requires
            h < self@.len(),
        ensures
            *r == self@[h as int],
    {
        &self.nodes[h]
    }

    /// Takes the node a handle names out of the pool, leaving `placeholder`
    /// in its place until the caller puts a node back.
    pub fn take(&mut self, h: usize, placeholder: AstNode) -> (n: AstNode)
        requires
            h < old(self)@.len(),
        ensures
            n == old(self)@[h as int],
            final(self)@ == old(self)@.update(h as int, placeholder),
    {
        let mut x = placeholder;
        core::mem::swap(&mut x, &mut self.nodes[h]);
        x
    }

    /// Replaces the node a handle names.
    pub fn set(&mut self, h: usize, n: AstNode)
        requires
            h < old(self)@.len(),
        ensures
            final(self)@ == old(self)@.update(h as int, n),
    {
        self.nodes[h] = n;
    }
}

/// One parsed tree per input source, built by attempting to parse every
/// source independently: a source whose parse fails is dropped from the
/// collection (its diagnostic is reported) while the rest proceed.
pub struct ASTPool<R> {
    asts: Vec<R>,
}

impl<R: Rule> ASTPool<R> {
    /// The parsed trees, in the order their sources stood in the pool.
    pub closed spec fn asts_spec(&self) -> Seq<R> {
        self.asts@
    }

    pub open spec fn len_spec(&self) -> nat {
        self.asts_spec().len()
    }

    /// Parses every source of the pool to completion; keeps the trees that
    /// parsed, logs a diagnostic for each source that did not.
    pub fn parse_src_pool(list: &mut NodePool, pool: &SrcPool, logger: &mut Logger) -> (r: ASTPool<
        R,
    >)
        ensures
            r.len_spec() <= pool.srcs@.len(),
            final(list)@.len() >= old(list)@.len(),
            final(logger).messages@.len() == old(logger).messages@.len() + pool.srcs@.len()
                - r.len_spec(),
    {
        let mut asts: Vec<R> = Vec::new();
        let mut i: usize = 0;
        while i < pool.srcs.len()
            invariant
                i <= pool.srcs@.len(),
                asts@.len() <= i,
                list@.len() >= old(list)@.len(),
                asts@.len() + logger.messages@.len() == i + old(logger).messages@.len(),
            decreases pool.srcs@.len() - i,
        {
            let src = &pool.srcs[i];
            let mut parser = Parser::new(src);
            match R::expect(&mut parser, list) {
                Ok(ast) => {
                    match parser.expect_eof() {
                        Ok(_) => {
                            asts.push(ast);
                        },
                        Err(e) => {
                            logger.log(e);
                        },
                    }
                },
                Err(e) => {
                    logger.log(e);
                },
            }
            i += 1;
        }
        ASTPool { asts }
    }

    /// The parsed trees, in source order; the pool is not modified.
    pub fn iter(&self) -> (r: &Vec<R>)
        ensures
            r@ == self.asts_spec(),
    {
        &self.asts
    }

    pub fn len(&self) -> (r: usize)
        ensures
            r == self.len_spec(),
    {
        self.asts.len()
    }
}

} // verus!
