//! Laws of the generator, stated over the spec-level evaluator and proved
//! once and for all. Together with the exact contracts on
//! `Expression::generate` and `parser::parse`, they carry over to every
//! executable run.
use vstd::prelude::*;

use crate::consts::symbols_spec;
use crate::eval::CacheModel;
use crate::eval::cache_lookup;
use crate::eval::eval_block;
use crate::eval::eval_block_reps;
use crate::eval::eval_expr;
use crate::eval::eval_item;
use crate::eval::eval_items;
use crate::eval::eval_source;
use crate::eval::repeat_seq;
use crate::eval::lemma_repeat_seq_len;
use crate::eval::word_candidates;
use crate::rng::pick_at;
use crate::types::BlockV;
use crate::types::ExpressionItemV;
use crate::types::ExpressionV;
use crate::types::LabeledSourceV;
use crate::types::SourceV;

verus! {

/// A repeated single character is that character at every position.
proof fn lemma_repeat_single(c: char, n: nat)
    ensures
        repeat_seq(seq![c], n).len() == n,
        forall|i: int| 0 <= i < n ==> repeat_seq(seq![c], n)[i] == c,
    decreases n,
{
    lemma_repeat_seq_len(seq![c], n);
    if n > 0 {
        lemma_repeat_single(c, (n - 1) as nat);
        assert(repeat_seq(seq![c], n) == seq![c] + repeat_seq(seq![c], (n - 1) as nat));
    }
}

/// The single labeled symbol block, `<label>@symbol!<repeat>`.
pub open spec fn labeled_symbol_block(label: u8, rep: u8) -> BlockV {
    BlockV {
        source: LabeledSourceV { source: SourceV::Symbol, label: Some(label) },
        filters: Seq::empty(),
        repeat: rep,
    }
}

/// A template made of one item.
pub open spec fn single_item_expr(item: ExpressionItemV) -> ExpressionV {
    ExpressionV { items: seq![item] }
}

/// A labeled symbol block repeated `rep` times yields text of length
/// `rep` whose characters are all one symbol, drawn once: whatever the
/// draws, the output of `<label>@symbol!<rep>` is one symbol-alphabet
/// character standing at every one of the `rep` positions.
pub proof fn law_labeled_block_repeats_one_draw(
    label: u8,
    rep: u8,
    dict: Seq<Seq<char>>,
    draws: Seq<usize>,
)
    requires
        1 <= label <= 99,
        1 <= rep <= 99,
    ensures
        ({
            let out = eval_expr(
                single_item_expr(ExpressionItemV::Block(labeled_symbol_block(label, rep))),
                dict,
                draws,
                0,
            ).out;
            &&& out.len() == rep as int
            &&& symbols_spec().contains(out[0])
            &&& forall|i: int| 0 <= i < out.len() ==> #[trigger] out[i] == out[0]
        }),
{
    let b = labeled_symbol_block(label, rep);
    let e = single_item_expr(ExpressionItemV::Block(b));
    let empty_cache = CacheModel::empty();
    assert(cache_lookup(empty_cache, 2, Seq::empty(), label as int) is None);
    let drawn = eval_source(SourceV::Symbol, dict, draws, 0, empty_cache);
    let idx = pick_at(draws, 0, symbols_spec().len());
    assert(symbols_spec().len() == 32);
    assert(idx < 32) by {
        assert((crate::rng::draw_at(draws, 0) as nat) % 32 < 32) by (nonlinear_arith);
    }
    assert(drawn.out == seq![symbols_spec()[idx as int]]);
    let c = symbols_spec()[idx as int];
    assert(symbols_spec().contains(c));
    let f = crate::types::filters_spec(b.filters, drawn.out);
    assert(f == drawn.out);
    lemma_repeat_single(c, rep as nat);
    let blk = eval_block(b, dict, draws, 0, empty_cache);
    assert(blk.out == repeat_seq(seq![c], rep as nat));
    let first = eval_item(e.items[0], dict, draws, 0, empty_cache);
    assert(e.items[0] == ExpressionItemV::Block(b));
    assert(first == blk);
    let rest = eval_items(e.items.drop_first(), dict, draws, blk.pos, blk.cache);
    assert(e.items.drop_first().len() == 0);
    assert(rest.out == Seq::<char>::empty());
    assert(eval_items(e.items, dict, draws, 0, empty_cache).out == first.out + rest.out);
    assert(eval_expr(e, dict, draws, 0).out == eval_items(
        e.items,
        dict,
        draws,
        0,
        empty_cache,
    ).out);
    assert(blk.out + Seq::<char>::empty() =~= blk.out);
}

/// The single unlabeled symbol block, `symbol!<repeat>`.
pub open spec fn unlabeled_symbol_block(rep: u8) -> BlockV {
    BlockV {
        source: LabeledSourceV { source: SourceV::Symbol, label: None },
        filters: Seq::empty(),
        repeat: rep,
    }
}

/// Each iteration of an unlabeled symbol block contributes exactly one
/// character.
proof fn lemma_unlabeled_symbol_reps_len(
    rep: u8,
    k: nat,
    dict: Seq<Seq<char>>,
    draws: Seq<usize>,
    pos: nat,
    cache: CacheModel,
)
    ensures
        eval_block_reps(unlabeled_symbol_block(rep), k, dict, draws, pos, cache).out.len()
            == k,
    decreases k,
{
    let b = unlabeled_symbol_block(rep);
    if k > 0 {
        let drawn = eval_source(SourceV::Symbol, dict, draws, pos, cache);
        assert(drawn.out.len() == 1);
        let f = crate::types::filters_spec(b.filters, drawn.out);
        assert(f == drawn.out);
        lemma_unlabeled_symbol_reps_len(rep, (k - 1) as nat, dict, draws, drawn.pos, drawn.cache);
    }
}

/// An unlabeled symbol block repeated `rep` times yields text of length
/// `rep`: each position is drawn on its own, so, unlike the labeled form,
/// the characters come from `rep` independent draws.
pub proof fn law_unlabeled_block_length(rep: u8, dict: Seq<Seq<char>>, draws: Seq<usize>)
    requires
        1 <= rep <= 99,
    ensures
        eval_expr(
            single_item_expr(ExpressionItemV::Block(unlabeled_symbol_block(rep))),
            dict,
            draws,
            0,
        ).out.len() == rep as int,
{
    let b = unlabeled_symbol_block(rep);
    let e = single_item_expr(ExpressionItemV::Block(b));
    let empty_cache = CacheModel::empty();
    lemma_unlabeled_symbol_reps_len(rep, rep as nat, dict, draws, 0, empty_cache);
    let blk = eval_block(b, dict, draws, 0, empty_cache);
    assert(blk == eval_block_reps(b, rep as nat, dict, draws, 0, empty_cache));
    let first = eval_item(e.items[0], dict, draws, 0, empty_cache);
    assert(e.items[0] == ExpressionItemV::Block(b));
    assert(first == blk);
    let rest = eval_items(e.items.drop_first(), dict, draws, blk.pos, blk.cache);
    assert(e.items.drop_first().len() == 0);
    assert(rest.out == Seq::<char>::empty());
    assert(eval_items(e.items, dict, draws, 0, empty_cache).out == first.out + rest.out);
    assert(eval_expr(e, dict, draws, 0).out == eval_items(
        e.items,
        dict,
        draws,
        0,
        empty_cache,
    ).out);
    assert(blk.out + Seq::<char>::empty() =~= blk.out);
}

/// The four-word dictionary `ab`, `abc`, `abcd`, `abcde`.
pub open spec fn ladder_dictionary() -> Seq<Seq<char>> {
    seq![
        seq!['a', 'b'],
        seq!['a', 'b', 'c'],
        seq!['a', 'b', 'c', 'd'],
        seq!['a', 'b', 'c', 'd', 'e'],
    ]
}

/// The word block `word:min=3,max=4`, bare.
pub open spec fn bounded_word_block() -> BlockV {
    BlockV {
        source: LabeledSourceV {
            source: SourceV::Word { min: Some(3), max: Some(4) },
            label: None,
        },
        filters: Seq::empty(),
        repeat: 1,
    }
}

/// Over the dictionary `ab`, `abc`, `abcd`, `abcde`, the template
/// `(word:min=3,max=4)` only ever produces `abc` or `abcd`: whatever the
/// draws, the length bounds admit exactly those two candidates.
pub proof fn law_word_bounds_restrict_candidates(draws: Seq<usize>)
    ensures
        ({
            let out = eval_expr(
                single_item_expr(ExpressionItemV::Block(bounded_word_block())),
                ladder_dictionary(),
                draws,
                0,
            ).out;
            out == seq!['a', 'b', 'c'] || out == seq!['a', 'b', 'c', 'd']
        }),
{
    let dict = ladder_dictionary();
    let b = bounded_word_block();
    let e = single_item_expr(ExpressionItemV::Block(b));
    let empty_cache = CacheModel::empty();
    let cands = word_candidates(dict, 3, 4);
    assert(cands =~= seq![seq!['a', 'b', 'c'], seq!['a', 'b', 'c', 'd']]) by {
        let d3 = dict.drop_last();
        let d2 = d3.drop_last();
        let d1 = d2.drop_last();
        let d0 = d1.drop_last();
        assert(d3 =~= seq![seq!['a', 'b'], seq!['a', 'b', 'c'], seq!['a', 'b', 'c', 'd']]);
        assert(d2 =~= seq![seq!['a', 'b'], seq!['a', 'b', 'c']]);
        assert(d1 =~= seq![seq!['a', 'b']]);
        assert(d0 =~= Seq::<Seq<char>>::empty());
        assert(word_candidates(d0, 3, 4) =~= Seq::<Seq<char>>::empty());
        assert(d1.last() == seq!['a', 'b']);
        assert(d1.last().len() == 2);
        assert(word_candidates(d1, 3, 4) =~= Seq::<Seq<char>>::empty());
        assert(d2.last() == seq!['a', 'b', 'c']);
        assert(word_candidates(d2, 3, 4) =~= seq![seq!['a', 'b', 'c']]);
        assert(d3.last() == seq!['a', 'b', 'c', 'd']);
        assert(word_candidates(d3, 3, 4) =~= seq![
            seq!['a', 'b', 'c'],
            seq!['a', 'b', 'c', 'd'],
        ]);
        assert(dict.last() == seq!['a', 'b', 'c', 'd', 'e']);
        assert(dict.last().len() == 5);
    }
    let idx = pick_at(draws, 0, cands.len());
    assert(idx < 2) by {
        assert((crate::rng::draw_at(draws, 0) as nat) % 2 < 2) by (nonlinear_arith);
    }
    let drawn = eval_source(b.source.source, dict, draws, 0, empty_cache);
    assert(drawn.out == cands[idx as int]);
    let f = crate::types::filters_spec(b.filters, drawn.out);
    assert(f == drawn.out);
    let blk = eval_block(b, dict, draws, 0, empty_cache);
    assert(blk == eval_block_reps(b, 1, dict, draws, 0, empty_cache));
    let tail = eval_block_reps(b, 0, dict, draws, drawn.pos, drawn.cache);
    assert(tail.out == Seq::<char>::empty());
    assert(blk.out == f + tail.out);
    assert(f + Seq::<char>::empty() =~= f);
    let first = eval_item(e.items[0], dict, draws, 0, empty_cache);
    assert(e.items[0] == ExpressionItemV::Block(b));
    assert(first == blk);
    let rest = eval_items(e.items.drop_first(), dict, draws, blk.pos, blk.cache);
    assert(e.items.drop_first().len() == 0);
    assert(rest.out == Seq::<char>::empty());
    assert(eval_items(e.items, dict, draws, 0, empty_cache).out == first.out + rest.out);
    assert(eval_expr(e, dict, draws, 0).out == eval_items(
        e.items,
        dict,
        draws,
        0,
        empty_cache,
    ).out);
    assert(blk.out + Seq::<char>::empty() =~= blk.out);
}


/// Unlike the labeled form, an unlabeled block's characters come from
/// independent draws, so they need not all match: under the draw
/// sequence 0, 1 the two positions of `symbol!2` hold two different
/// symbols.
pub proof fn law_unlabeled_block_chars_can_differ()
    ensures
        ({
            let out = eval_expr(
                single_item_expr(ExpressionItemV::Block(unlabeled_symbol_block(2))),
                Seq::empty(),
                seq![0usize, 1usize],
                0,
            ).out;
            out.len() == 2 && out[0] != out[1]
        }),
{
    let b = unlabeled_symbol_block(2);
    let e = single_item_expr(ExpressionItemV::Block(b));
    let dict: Seq<Seq<char>> = Seq::empty();
    let draws: Seq<usize> = seq![0usize, 1usize];
    let empty_cache = CacheModel::empty();
    assert(symbols_spec().len() == 32);
    let drawn1 = eval_source(SourceV::Symbol, dict, draws, 0, empty_cache);
    assert(crate::rng::pick_at(draws, 0, 32) == 0nat) by {
        assert(crate::rng::draw_at(draws, 0) == 0usize);
        assert((0 as nat) % 32 == 0nat);
    }
    assert(symbols_spec()[0] == '!');
    assert(drawn1.out == seq!['!']);
    assert(drawn1.pos == 1);
    let drawn2 = eval_source(SourceV::Symbol, dict, draws, 1, drawn1.cache);
    assert(crate::rng::pick_at(draws, 1, 32) == 1nat) by {
        assert(crate::rng::draw_at(draws, 1) == 1usize);
        assert((1 as nat) % 32 == 1nat);
    }
    assert(symbols_spec()[1] == '"');
    assert(drawn2.out == seq!['"']);
    let f1 = crate::types::filters_spec(b.filters, drawn1.out);
    let f2 = crate::types::filters_spec(b.filters, drawn2.out);
    assert(f1 == drawn1.out && f2 == drawn2.out);
    let r0 = eval_block_reps(b, 0, dict, draws, drawn2.pos, drawn2.cache);
    assert(r0.out == Seq::<char>::empty());
    let r1 = eval_block_reps(b, 1, dict, draws, drawn1.pos, drawn1.cache);
    assert(r1.out == f2 + r0.out);
    let r2 = eval_block_reps(b, 2, dict, draws, 0, empty_cache);
    assert(r2.out == f1 + r1.out);
    assert(r2.out =~= seq!['!', '"']);
    let blk = eval_block(b, dict, draws, 0, empty_cache);
    assert(blk == r2);
    let first = eval_item(e.items[0], dict, draws, 0, empty_cache);
    assert(e.items[0] == ExpressionItemV::Block(b));
    assert(first == blk);
    let rest = eval_items(e.items.drop_first(), dict, draws, blk.pos, blk.cache);
    assert(e.items.drop_first().len() == 0);
    assert(rest.out == Seq::<char>::empty());
    assert(eval_items(e.items, dict, draws, 0, empty_cache).out == first.out + rest.out);
    assert(eval_expr(e, dict, draws, 0).out == eval_items(
        e.items,
        dict,
        draws,
        0,
        empty_cache,
    ).out);
    assert(eval_expr(e, dict, draws, 0).out =~= seq!['!', '"']);
}


/// A labeled value is drawn and filtered once and reused verbatim: in a
/// template of two blocks carrying the same label and the same builtin
/// source kind, the second block contributes the stored post-filter text
/// of the first, repeated its own number of times, ignoring its own
/// filter chain and consuming no draw. The cache lives for the whole
/// evaluation call, so this holds across any distance between the blocks.
pub proof fn law_labeled_value_reused_across_blocks(
    src: SourceV,
    l: u8,
    fs1: Seq<crate::types::Filter>,
    fs2: Seq<crate::types::Filter>,
    r1: u8,
    r2: u8,
    dict: Seq<Seq<char>>,
    draws: Seq<usize>,
)
    requires
        !(src is Custom),
    ensures
        ({
            let b1 = BlockV {
                source: LabeledSourceV { source: src, label: Some(l) },
                filters: fs1,
                repeat: r1,
            };
            let b2 = BlockV {
                source: LabeledSourceV { source: src, label: Some(l) },
                filters: fs2,
                repeat: r2,
            };
            let e = ExpressionV {
                items: seq![ExpressionItemV::Block(b1), ExpressionItemV::Block(b2)],
            };
            let drawn = eval_source(src, dict, draws, 0, CacheModel::empty());
            let v = crate::types::filters_spec(fs1, drawn.out);
            eval_expr(e, dict, draws, 0).out == repeat_seq(v, r1 as nat) + repeat_seq(
                v,
                r2 as nat,
            ) && eval_expr(e, dict, draws, 0).pos == drawn.pos
        }),
{
    let b1 = BlockV {
        source: LabeledSourceV { source: src, label: Some(l) },
        filters: fs1,
        repeat: r1,
    };
    let b2 = BlockV {
        source: LabeledSourceV { source: src, label: Some(l) },
        filters: fs2,
        repeat: r2,
    };
    let e = ExpressionV {
        items: seq![ExpressionItemV::Block(b1), ExpressionItemV::Block(b2)],
    };
    let empty_cache = CacheModel::empty();
    let k = crate::eval::kind_code(src);
    let nm = crate::eval::kind_name(src);
    assert(cache_lookup(empty_cache, k, nm, l as int) is None);
    let drawn = eval_source(src, dict, draws, 0, empty_cache);
    assert(drawn.cache == empty_cache) by {
        match src {
            SourceV::Word { min, max } => {
                let cands = word_candidates(dict, crate::eval::word_lo(min), crate::eval::word_hi(max));
                if cands.len() == 0 {
                } else {
                }
            },
            _ => {},
        }
    }
    let v = crate::types::filters_spec(fs1, drawn.out);
    let blk1 = eval_block(b1, dict, draws, 0, empty_cache);
    assert(blk1.out == repeat_seq(v, r1 as nat));
    assert(blk1.cache == empty_cache.push((k, nm, l as int, v)));
    assert(blk1.pos == drawn.pos);
    let stored = blk1.cache;
    assert(stored[0] == (k, nm, l as int, v));
    assert(cache_lookup(stored, k, nm, l as int) == Some(v));
    let blk2 = eval_block(b2, dict, draws, blk1.pos, stored);
    assert(blk2.out == repeat_seq(v, r2 as nat));
    assert(blk2.pos == blk1.pos);
    let first = eval_item(e.items[0], dict, draws, 0, empty_cache);
    assert(e.items[0] == ExpressionItemV::Block(b1));
    assert(first == blk1);
    let second_items = e.items.drop_first();
    assert(second_items =~= seq![ExpressionItemV::Block(b2)]);
    let second = eval_item(second_items[0], dict, draws, first.pos, first.cache);
    assert(second_items[0] == ExpressionItemV::Block(b2));
    assert(second == blk2);
    let rest2 = eval_items(second_items.drop_first(), dict, draws, second.pos, second.cache);
    assert(second_items.drop_first().len() == 0);
    assert(rest2.out == Seq::<char>::empty());
    assert(eval_items(second_items, dict, draws, first.pos, first.cache).out == second.out
        + rest2.out);
    assert(eval_items(e.items, dict, draws, 0, empty_cache).out == first.out + (second.out
        + rest2.out));
    assert(eval_expr(e, dict, draws, 0).out == eval_items(
        e.items,
        dict,
        draws,
        0,
        empty_cache,
    ).out);
    assert(first.out + (second.out + rest2.out) =~= repeat_seq(v, r1 as nat) + repeat_seq(
        v,
        r2 as nat,
    ));
    assert(eval_items(e.items, dict, draws, 0, empty_cache).pos == rest2.pos);
    assert(rest2.pos == blk2.pos);
}

/// Generation is deterministic: the same template, dictionary and draw
/// sequence produce identical output, byte for byte. Together with the
/// contract of `Expression::generate`, which pins the produced string to
/// this very function of the draw sequence, two runs over equal scripted
/// draw sources cannot differ.
pub proof fn law_generation_deterministic(
    e: ExpressionV,
    dict: Seq<Seq<char>>,
    draws1: Seq<usize>,
    draws2: Seq<usize>,
    pos1: nat,
    pos2: nat,
)
    requires
        draws1 == draws2,
        pos1 == pos2,
    ensures
        eval_expr(e, dict, draws1, pos1).out == eval_expr(e, dict, draws2, pos2).out,
{
}

} // verus!
