//! Producing passwords from a parsed template: sizing a draw budget for
//! the template, drawing that many raw values from the operating system's
//! random source, and running the deterministic generator over them.
use vstd::prelude::*;

use crate::eval::eval_expr;
use crate::eval::eval_source;
use crate::rng::DrawSource;
use crate::types::BlockV;
use crate::types::Expression;
use crate::types::ExpressionItem;
use crate::types::ExpressionItemV;
use crate::types::GroupV;
use crate::types::Source;
use crate::types::SourceV;
use crate::types::Block;
use crate::types::Group;
use crate::types::items_view;
use crate::types::lemma_items_view;
use crate::types::lemma_blocks_view;
use crate::types::blocks_view;

verus! {

/// The operating system's random number generator, a zero-sized handle.
#[verifier::external_type_specification]
#[verifier::external_body]
pub struct ExOsRng(rand::rngs::OsRng);

/// A fresh handle on the operating system's random source.
///
/// Relies on rand's `OsRng` being a freely constructible zero-sized
/// handle.
#[verifier::external_body]
fn new_os_rng() -> rand::rngs::OsRng {
    rand::rngs::OsRng
}

/// One raw draw from the operating system's random source.
///
/// Relies on rand's `TryRngCore::try_next_u64` for `OsRng`: a random
/// value, of which nothing can be promised; 0 on an operating-system
/// failure.
#[verifier::external_body]
fn os_draw(rng: &mut rand::rngs::OsRng) -> usize {
    match rand::TryRngCore::try_next_u64(rng) {
        Ok(v) => v as usize,
        Err(_) => 0,
    }
}

/// The most draws one evaluation can consume, capped: a pathological
/// template whose budget reaches the cap may exhaust its draw source and
/// read zeros from then on.
pub const DRAW_CAP: usize = 1048576;

/// A sum, capped at the draw budget cap.
pub open spec fn cap_add(a: nat, b: nat) -> nat {
    if a + b > DRAW_CAP {
        DRAW_CAP as nat
    } else {
        a + b
    }
}

/// A product, capped at the draw budget cap.
pub open spec fn cap_mul(a: nat, b: nat) -> nat {
    if a * b > DRAW_CAP {
        DRAW_CAP as nat
    } else {
        a * b
    }
}

/// The draw budget of one source: one draw, or the budget of a custom
/// body.
pub open spec fn need_source(src: SourceV) -> nat
    decreases src, 0nat,
{
    match src {
        SourceV::Custom { name: _, items } => need_items(items),
        _ => 1,
    }
}

/// The draw budget of a run of items.
pub open spec fn need_items(items: Seq<ExpressionItemV>) -> nat
    decreases items, 0nat,
{
    if items.len() == 0 {
        0
    } else {
        cap_add(need_item(items[0]), need_items(items.drop_first()))
    }
}

/// The draw budget of one item.
pub open spec fn need_item(item: ExpressionItemV) -> nat
    decreases item, 0nat,
{
    match item {
        ExpressionItemV::Block(b) => need_block(b),
        ExpressionItemV::Group(g) => need_group(g),
    }
}

/// The draw budget of a block: a labeled block draws at most once; an
/// unlabeled one draws on each of its repeats.
pub open spec fn need_block(b: BlockV) -> nat
    decreases b, 1nat,
{
    match b.source.label {
        Some(_) => need_source(b.source.source),
        None => cap_mul(b.repeat as nat, need_source(b.source.source)),
    }
}

/// The draw budget of a group: its blocks, times its repeats.
pub open spec fn need_group(g: GroupV) -> nat
    decreases g, 1nat,
{
    cap_mul(g.repeat as nat, need_blocks(g.blocks))
}

/// The draw budget of a run of blocks.
pub open spec fn need_blocks(blocks: Seq<BlockV>) -> nat
    decreases blocks, 0nat,
{
    if blocks.len() == 0 {
        0
    } else {
        cap_add(need_block(blocks[0]), need_blocks(blocks.drop_first()))
    }
}

/// Compute a source's draw budget.
fn need_source_exec(src: &Source) -> (r: usize)
    ensures
        r as nat == need_source(src@),
        r <= DRAW_CAP,
    decreases *src, 0nat,
{
    match src {
        Source::Custom(_, items) => {
            let r = need_items_from(items, 0);
            proof {
                assert(items_view(items@).skip(0) =~= items_view(items@));
            }
            r
        },
        _ => 1,
    }
}

/// Compute the draw budget of the items from index `i` on.
fn need_items_from(items: &Vec<ExpressionItem>, i: usize) -> (r: usize)
    requires
        i <= items@.len(),
    ensures
        r as nat == need_items(items_view(items@).skip(i as int)),
        r <= DRAW_CAP,
    decreases items@, items@.len() - i,
{
    proof {
        lemma_items_view(items@);
    }
    if i == items.len() {
        proof {
            assert(items_view(items@).skip(i as int) =~= Seq::<ExpressionItemV>::empty());
        }
        0
    } else {
        let first = need_item_exec(&items[i]);
        let rest = need_items_from(items, i + 1);
        proof {
            assert(items_view(items@).skip(i as int)[0] == items_view(items@)[i as int]);
            assert(items_view(items@).skip(i as int).drop_first() =~= items_view(
                items@,
            ).skip(i + 1));
        }
        let t = first + rest;
        if t > DRAW_CAP {
            DRAW_CAP
        } else {
            t
        }
    }
}

/// Compute one item's draw budget.
fn need_item_exec(item: &ExpressionItem) -> (r: usize)
    ensures
        r as nat == need_item(item@),
        r <= DRAW_CAP,
    decreases *item, 0nat,
{
    match item {
        ExpressionItem::Block(b) => need_block_exec(b),
        ExpressionItem::Group(g) => need_group_exec(g),
    }
}

/// Compute a block's draw budget.
fn need_block_exec(b: &Block) -> (r: usize)
    ensures
        r as nat == need_block(b@),
        r <= DRAW_CAP,
    decreases *b, 1nat,
{
    let src_need = need_source_exec(&b.source.source);
    match b.source.label {
        Some(_) => src_need,
        None => {
            proof {
                assert((b.repeat as int) * (src_need as int) <= 255 * 1048576)
                    by (nonlinear_arith)
                    requires b.repeat <= 255 && src_need <= 1048576;
            }
            let t: u64 = (b.repeat as u64) * (src_need as u64);
            if t > 1048576u64 {
                DRAW_CAP
            } else {
                t as usize
            }
        },
    }
}

/// Compute a group's draw budget.
fn need_group_exec(g: &Group) -> (r: usize)
    ensures
        r as nat == need_group(g@),
        r <= DRAW_CAP,
    decreases *g, 1nat,
{
    let blocks_need = need_blocks_from(&g.blocks, 0);
    proof {
        assert(blocks_view(g.blocks@).skip(0) =~= blocks_view(g.blocks@));
        assert((g.repeat as int) * (blocks_need as int) <= 255 * 1048576)
            by (nonlinear_arith)
            requires g.repeat <= 255 && blocks_need <= 1048576;
    }
    let t: u64 = (g.repeat as u64) * (blocks_need as u64);
    if t > 1048576u64 {
        DRAW_CAP
    } else {
        t as usize
    }
}

/// Compute the draw budget of the blocks from index `i` on.
fn need_blocks_from(blocks: &Vec<Block>, i: usize) -> (r: usize)
    requires
        i <= blocks@.len(),
    ensures
        r as nat == need_blocks(blocks_view(blocks@).skip(i as int)),
        r <= DRAW_CAP,
    decreases blocks@, blocks@.len() - i,
{
    proof {
        lemma_blocks_view(blocks@);
    }
    if i == blocks.len() {
        proof {
            assert(blocks_view(blocks@).skip(i as int) =~= Seq::<BlockV>::empty());
        }
        0
    } else {
        let first = need_block_exec(&blocks[i]);
        let rest = need_blocks_from(blocks, i + 1);
        proof {
            assert(blocks_view(blocks@).skip(i as int)[0] == blocks_view(blocks@)[i as int]);
            assert(blocks_view(blocks@).skip(i as int).drop_first() =~= blocks_view(
                blocks@,
            ).skip(i + 1));
        }
        let t = first + rest;
        if t > DRAW_CAP {
            DRAW_CAP
        } else {
            t
        }
    }
}

/// The draw budget of a whole expression.
pub open spec fn need_expr(e: crate::types::ExpressionV) -> nat {
    need_items(e.items)
}

/// Whether a piece of text is a possible output of an expression over a
/// dictionary: the deterministic evaluation of the expression over some
/// sequence of draws produces exactly that text.
pub open spec fn explained_by_draws(
    p: Seq<char>,
    e: crate::types::ExpressionV,
    dict: Seq<Seq<char>>,
) -> bool {
    exists|ds: Seq<usize>| p == eval_expr(e, dict, ds, 0).out
}

/// Compute an expression's draw budget.
pub fn draws_needed(e: &Expression) -> (r: usize)
    ensures
        r as nat == need_expr(e@),
        r <= DRAW_CAP,
{
    let r = need_items_from(&e.items, 0);
    proof {
        assert(items_view(e.items@).skip(0) =~= items_view(e.items@));
    }
    r
}

/// Makes passwords: holds the dictionary that word sources draw from and
/// a handle on the operating system's random source.
pub struct PasswordMaker {
    /// The random source that seeds each generation call.
    pub rng: rand::rngs::OsRng,
    /// The dictionary that word sources draw from.
    pub dictionary: Vec<String>,
}

impl PasswordMaker {
    /// A password maker over the given dictionary.
    pub fn new(dictionary: Vec<String>) -> (r: PasswordMaker)
        ensures
            r.dictionary@ == dictionary@,
    {
        PasswordMaker { rng: new_os_rng(), dictionary }
    }

    /// Make one password: draw the template's budget of raw values from
    /// the random source and evaluate the template over them. Whatever
    /// the random source produced, the output is explained by some draw
    /// sequence: it is the deterministic evaluation of the template over
    /// the values actually drawn.
    pub fn make_password(&mut self, expression: &Expression) -> (out: String)
        ensures
            final(self).dictionary@ == old(self).dictionary@,
            explained_by_draws(out@, expression@, old(self).dictionary.deep_view()),
    {
        let bound = draws_needed(expression);
        let mut draws: Vec<usize> = Vec::with_capacity(bound);
        let mut k: usize = 0;
        while k < bound
            invariant
                k <= bound,
                draws@.len() == k,
                self.dictionary@ == old(self).dictionary@,
            decreases bound - k,
        {
            let v = os_draw(&mut self.rng);
            draws.push(v);
            k = k + 1;
        }
        let ghost ds = draws@;
        let mut src = DrawSource::new(draws);
        let out = expression.generate(&self.dictionary, &mut src);
        proof {
            assert(out@ == eval_expr(
                expression@,
                old(self).dictionary.deep_view(),
                ds,
                0,
            ).out);
            assert(explained_by_draws(
                out@,
                expression@,
                old(self).dictionary.deep_view(),
            ));
        }
        out
    }

    /// Make `count` passwords, each from its own fresh draws and cache.
    pub fn make_passwords(&mut self, expression: &Expression, count: usize) -> (out: Vec<
        String,
    >)
        ensures
            final(self).dictionary@ == old(self).dictionary@,
            out@.len() == count,
            forall|i: int|
                0 <= i < count ==> #[trigger] explained_by_draws(
                    out@[i]@,
                    expression@,
                    old(self).dictionary.deep_view(),
                ),
    {
        let mut passwords: Vec<String> = Vec::with_capacity(count);
        let mut n: usize = 0;
        while n < count
            invariant
                n <= count,
                passwords@.len() == n,
                self.dictionary@ == old(self).dictionary@,
                forall|i: int|
                    0 <= i < n ==> #[trigger] explained_by_draws(
                        passwords@[i]@,
                        expression@,
                        old(self).dictionary.deep_view(),
                    ),
            decreases count - n,
        {
            let ghost pre_deep = self.dictionary.deep_view();
            proof {
                assert(pre_deep =~= old(self).dictionary.deep_view());
            }
            let p = self.make_password(expression);
            let ghost pv = p@;
            passwords.push(p);
            proof {
                let w = choose|ds: Seq<usize>|
                    pv == eval_expr(expression@, pre_deep, ds, 0).out;
                assert(passwords@[n as int]@ == eval_expr(
                    expression@,
                    old(self).dictionary.deep_view(),
                    w,
                    0,
                ).out);
                assert(explained_by_draws(
                    passwords@[n as int]@,
                    expression@,
                    old(self).dictionary.deep_view(),
                ));
            }
            n = n + 1;
        }
        passwords
    }
}

impl Default for PasswordMaker {
    /// A password maker with an empty dictionary: word sources yield
    /// empty text until a dictionary is supplied.
    fn default() -> (r: PasswordMaker)
        ensures
            r.dictionary@.len() == 0,
    {
        PasswordMaker::new(Vec::new())
    }
}


/// One source evaluation consumes at most its draw budget (monotone in
/// any case, bounded when the budget is under the cap).
proof fn lemma_source_budget(
    src: SourceV,
    dict: Seq<Seq<char>>,
    draws: Seq<usize>,
    pos: nat,
    cache: crate::eval::CacheModel,
)
    ensures
        pos <= eval_source(src, dict, draws, pos, cache).pos,
        need_source(src) < DRAW_CAP ==> eval_source(src, dict, draws, pos, cache).pos
            <= pos + need_source(src),
    decreases src, 0nat,
{
    match src {
        SourceV::Custom { name: _, items } => {
            lemma_items_budget(items, dict, draws, pos, cache);
        },
        _ => {},
    }
}

/// A run of items consumes at most its draw budget.
proof fn lemma_items_budget(
    items: Seq<ExpressionItemV>,
    dict: Seq<Seq<char>>,
    draws: Seq<usize>,
    pos: nat,
    cache: crate::eval::CacheModel,
)
    ensures
        pos <= crate::eval::eval_items(items, dict, draws, pos, cache).pos,
        need_items(items) < DRAW_CAP ==> crate::eval::eval_items(
            items,
            dict,
            draws,
            pos,
            cache,
        ).pos <= pos + need_items(items),
    decreases items, 0nat,
{
    if items.len() > 0 {
        let first = crate::eval::eval_item(items[0], dict, draws, pos, cache);
        lemma_item_budget(items[0], dict, draws, pos, cache);
        lemma_items_budget(items.drop_first(), dict, draws, first.pos, first.cache);
    }
}

/// One item consumes at most its draw budget.
proof fn lemma_item_budget(
    item: ExpressionItemV,
    dict: Seq<Seq<char>>,
    draws: Seq<usize>,
    pos: nat,
    cache: crate::eval::CacheModel,
)
    ensures
        pos <= crate::eval::eval_item(item, dict, draws, pos, cache).pos,
        need_item(item) < DRAW_CAP ==> crate::eval::eval_item(
            item,
            dict,
            draws,
            pos,
            cache,
        ).pos <= pos + need_item(item),
    decreases item, 0nat,
{
    match item {
        ExpressionItemV::Block(b) => lemma_block_budget(b, dict, draws, pos, cache),
        ExpressionItemV::Group(g) => lemma_group_budget(g, dict, draws, pos, cache),
    }
}

/// One block consumes at most its draw budget.
proof fn lemma_block_budget(
    b: BlockV,
    dict: Seq<Seq<char>>,
    draws: Seq<usize>,
    pos: nat,
    cache: crate::eval::CacheModel,
)
    ensures
        pos <= crate::eval::eval_block(b, dict, draws, pos, cache).pos,
        need_block(b) < DRAW_CAP ==> crate::eval::eval_block(b, dict, draws, pos, cache).pos
            <= pos + need_block(b),
    decreases b, 256nat,
{
    match b.source.label {
        Some(l) => {
            let k = crate::eval::kind_code(b.source.source);
            let nm = crate::eval::kind_name(b.source.source);
            match crate::eval::cache_lookup(cache, k, nm, l as int) {
                Some(_) => {},
                None => {
                    lemma_source_budget(b.source.source, dict, draws, pos, cache);
                },
            }
        },
        None => {
            lemma_block_reps_budget(b, b.repeat as nat, dict, draws, pos, cache);
            let ns = need_source(b.source.source);
            if need_block(b) < DRAW_CAP {
                assert(cap_mul(b.repeat as nat, ns) < DRAW_CAP);
                assert((b.repeat as nat) * ns < DRAW_CAP);
            }
        },
    }
}

/// `k` independent block iterations consume at most `k` source budgets.
proof fn lemma_block_reps_budget(
    b: BlockV,
    k: nat,
    dict: Seq<Seq<char>>,
    draws: Seq<usize>,
    pos: nat,
    cache: crate::eval::CacheModel,
)
    ensures
        pos <= crate::eval::eval_block_reps(b, k, dict, draws, pos, cache).pos,
        k * need_source(b.source.source) < DRAW_CAP ==> crate::eval::eval_block_reps(
            b,
            k,
            dict,
            draws,
            pos,
            cache,
        ).pos <= pos + k * need_source(b.source.source),
    decreases b, k,
{
    if k > 0 {
        let ns = need_source(b.source.source);
        let drawn = eval_source(b.source.source, dict, draws, pos, cache);
        lemma_source_budget(b.source.source, dict, draws, pos, cache);
        lemma_block_reps_budget(b, (k - 1) as nat, dict, draws, drawn.pos, drawn.cache);
        if k * ns < DRAW_CAP {
            assert(ns <= k * ns && (k - 1) * ns <= k * ns && (k - 1) * ns + ns == k * ns)
                by (nonlinear_arith)
                requires k >= 1 && ns >= 0;
        }
    }
}

/// One group consumes at most its draw budget.
proof fn lemma_group_budget(
    g: GroupV,
    dict: Seq<Seq<char>>,
    draws: Seq<usize>,
    pos: nat,
    cache: crate::eval::CacheModel,
)
    ensures
        pos <= crate::eval::eval_group(g, dict, draws, pos, cache).pos,
        need_group(g) < DRAW_CAP ==> crate::eval::eval_group(g, dict, draws, pos, cache).pos
            <= pos + need_group(g),
    decreases g, 256nat,
{
    lemma_group_reps_budget(g, g.repeat as nat, dict, draws, pos, cache);
    if need_group(g) < DRAW_CAP {
        assert(cap_mul(g.repeat as nat, need_blocks(g.blocks)) < DRAW_CAP);
        assert((g.repeat as nat) * need_blocks(g.blocks) < DRAW_CAP);
    }
}

/// `k` group iterations consume at most `k` block-run budgets.
proof fn lemma_group_reps_budget(
    g: GroupV,
    k: nat,
    dict: Seq<Seq<char>>,
    draws: Seq<usize>,
    pos: nat,
    cache: crate::eval::CacheModel,
)
    ensures
        pos <= crate::eval::eval_group_reps(g, k, dict, draws, pos, cache).pos,
        k * need_blocks(g.blocks) < DRAW_CAP ==> crate::eval::eval_group_reps(
            g,
            k,
            dict,
            draws,
            pos,
            cache,
        ).pos <= pos + k * need_blocks(g.blocks),
    decreases g, k,
{
    if k > 0 {
        let nb = need_blocks(g.blocks);
        let one = crate::eval::eval_blocks(g.blocks, dict, draws, pos, cache);
        lemma_blocks_budget(g.blocks, dict, draws, pos, cache);
        lemma_group_reps_budget(g, (k - 1) as nat, dict, draws, one.pos, one.cache);
        if k * nb < DRAW_CAP {
            assert(nb <= k * nb && (k - 1) * nb <= k * nb && (k - 1) * nb + nb == k * nb)
                by (nonlinear_arith)
                requires k >= 1 && nb >= 0;
        }
    }
}

/// A run of blocks consumes at most its draw budget.
proof fn lemma_blocks_budget(
    blocks: Seq<BlockV>,
    dict: Seq<Seq<char>>,
    draws: Seq<usize>,
    pos: nat,
    cache: crate::eval::CacheModel,
)
    ensures
        pos <= crate::eval::eval_blocks(blocks, dict, draws, pos, cache).pos,
        need_blocks(blocks) < DRAW_CAP ==> crate::eval::eval_blocks(
            blocks,
            dict,
            draws,
            pos,
            cache,
        ).pos <= pos + need_blocks(blocks),
    decreases blocks, 0nat,
{
    if blocks.len() > 0 {
        let first = crate::eval::eval_block(blocks[0], dict, draws, pos, cache);
        lemma_block_budget(blocks[0], dict, draws, pos, cache);
        lemma_blocks_budget(blocks.drop_first(), dict, draws, first.pos, first.cache);
    }
}

/// Generation stays within its draw budget: when a template's budget lies
/// under the cap, evaluating it consumes at most `need_expr` draws, so the
/// `draws_needed` values that `make_password` pre-draws are enough and the
/// zero fallback of an exhausted draw source is never read.
pub proof fn law_generation_stays_within_budget(
    e: crate::types::ExpressionV,
    dict: Seq<Seq<char>>,
    draws: Seq<usize>,
    pos: nat,
)
    requires
        need_expr(e) < DRAW_CAP,
    ensures
        pos <= eval_expr(e, dict, draws, pos).pos <= pos + need_expr(e),
{
    lemma_items_budget(e.items, dict, draws, pos, Seq::empty());
}

} // verus!
