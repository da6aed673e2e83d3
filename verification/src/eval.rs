//! The generation engine: evaluating an expression tree against a
//! dictionary and a draw source, with a per-call cache for labeled values.
//!
//! The whole engine is a deterministic function of the draw sequence: the
//! spec functions `eval_source`, `eval_block`, `eval_group`, `eval_items`
//! and `eval_expr` define the produced text, the number of draws consumed
//! and the cache contents, and every executable method is proved to return
//! exactly what they say.
use vstd::prelude::*;

use crate::consts::digits_spec;
use crate::consts::letters_spec;
use crate::consts::symbols_spec;
use crate::consts::digits;
use crate::consts::letters;
use crate::consts::symbols;
use crate::rng::DrawSource;
use crate::rng::next_pos;
use crate::rng::pick_at;
use crate::text::str_to_chars;
use crate::text::chars_to_string;
use crate::types::Block;
use crate::types::BlockV;
use crate::types::Expression;
use crate::types::ExpressionItem;
use crate::types::ExpressionItemV;
use crate::types::ExpressionV;
use crate::types::Group;
use crate::types::GroupV;
use crate::types::Source;
use crate::types::SourceV;
use crate::types::apply_filters;
use crate::types::blocks_view;
use crate::types::filters_spec;
use crate::types::items_view;
use crate::types::lemma_blocks_view;
use crate::types::lemma_items_view;

verus! {

/// The model of the evaluation cache: an association list from
/// (source kind, custom name, label) to the stored post-filter text.
/// Earlier entries win on lookup; an entry is only added when its key is
/// absent, so each key occurs at most once.
pub type CacheModel = Seq<(int, Seq<char>, int, Seq<char>)>;

/// What one evaluation step yields: the produced text, the cursor into the
/// draw sequence after the step, and the cache after the step.
pub struct EvalOut {
    /// The produced text.
    pub out: Seq<char>,
    /// The draw cursor after the step.
    pub pos: nat,
    /// The cache after the step.
    pub cache: CacheModel,
}

/// The numeric code of a source kind, distinguishing the cache keys of the
/// six kinds of source.
pub open spec fn kind_code(s: SourceV) -> int {
    match s {
        SourceV::Word { .. } => 0,
        SourceV::Letter => 1,
        SourceV::Symbol => 2,
        SourceV::Digit => 3,
        SourceV::CharacterList { .. } => 4,
        SourceV::Custom { .. } => 5,
    }
}

/// The name part of a source's cache key: the definition name for a custom
/// source, empty for every builtin kind.
pub open spec fn kind_name(s: SourceV) -> Seq<char> {
    match s {
        SourceV::Custom { name, .. } => name,
        _ => Seq::empty(),
    }
}

/// First-match lookup in the cache model.
pub open spec fn cache_lookup(
    c: CacheModel,
    kind: int,
    name: Seq<char>,
    label: int,
) -> Option<Seq<char>>
    decreases c.len(),
{
    if c.len() == 0 {
        None
    } else if c[0].0 == kind && c[0].1 == name && c[0].2 == label {
        Some(c[0].3)
    } else {
        cache_lookup(c.drop_first(), kind, name, label)
    }
}

/// The lower bound a word source asks for: the `min` key, or 0.
pub open spec fn word_lo(min: Option<u8>) -> int {
    match min {
        Some(v) => v as int,
        None => 0,
    }
}

/// The upper bound a word source asks for: the `max` key, or 255.
pub open spec fn word_hi(max: Option<u8>) -> int {
    match max {
        Some(v) => v as int,
        None => 255,
    }
}

/// The dictionary words whose character count lies in `[lo, hi]`, in
/// dictionary order.
pub open spec fn word_candidates(dict: Seq<Seq<char>>, lo: int, hi: int) -> Seq<Seq<char>>
    decreases dict.len(),
{
    if dict.len() == 0 {
        Seq::empty()
    } else {
        word_candidates(dict.drop_last(), lo, hi) + if lo <= dict.last().len() <= hi {
            seq![dict.last()]
        } else {
            Seq::empty()
        }
    }
}

/// A character sequence repeated `n` times, end to end.
pub open spec fn repeat_seq(s: Seq<char>, n: nat) -> Seq<char>
    decreases n,
{
    if n == 0 {
        Seq::empty()
    } else {
        s + repeat_seq(s, (n - 1) as nat)
    }
}

/// The length of a repeated sequence.
pub proof fn lemma_repeat_seq_len(s: Seq<char>, n: nat)
    ensures
        repeat_seq(s, n).len() == n * s.len(),
    decreases n,
{
    if n == 0 {
        assert(repeat_seq(s, n).len() == 0);
        assert(n * s.len() == 0) by (nonlinear_arith)
            requires n == 0;
    } else {
        lemma_repeat_seq_len(s, (n - 1) as nat);
        let m: nat = (n - 1) as nat;
        assert(repeat_seq(s, n) == s + repeat_seq(s, m));
        assert(repeat_seq(s, n).len() == s.len() + m * s.len());
        assert(s.len() + m * s.len() == n * s.len()) by (nonlinear_arith)
            requires n >= 1 && m == n - 1;
    }
}

/// What evaluating one source yields: a word source filters the dictionary
/// by length and picks one candidate (or yields nothing when none
/// qualifies); an alphabet source picks one character; a character list
/// picks one of its characters (or yields nothing when empty); a custom
/// source evaluates its resolved body with the same cache and draws.
pub open spec fn eval_source(
    src: SourceV,
    dict: Seq<Seq<char>>,
    draws: Seq<usize>,
    pos: nat,
    cache: CacheModel,
) -> EvalOut
    decreases src, 0nat,
{
    match src {
        SourceV::Word { min, max } => {
            let cands = word_candidates(dict, word_lo(min), word_hi(max));
            if cands.len() == 0 {
                EvalOut { out: Seq::empty(), pos, cache }
            } else {
                EvalOut {
                    out: cands[pick_at(draws, pos, cands.len()) as int],
                    pos: next_pos(draws, pos),
                    cache,
                }
            }
        },
        SourceV::Letter => EvalOut {
            out: seq![letters_spec()[pick_at(draws, pos, letters_spec().len()) as int]],
            pos: next_pos(draws, pos),
            cache,
        },
        SourceV::Symbol => EvalOut {
            out: seq![symbols_spec()[pick_at(draws, pos, symbols_spec().len()) as int]],
            pos: next_pos(draws, pos),
            cache,
        },
        SourceV::Digit => EvalOut {
            out: seq![digits_spec()[pick_at(draws, pos, digits_spec().len()) as int]],
            pos: next_pos(draws, pos),
            cache,
        },
        SourceV::CharacterList { chars } => {
            if chars.len() == 0 {
                EvalOut { out: Seq::empty(), pos, cache }
            } else {
                EvalOut {
                    out: seq![chars[pick_at(draws, pos, chars.len()) as int]],
                    pos: next_pos(draws, pos),
                    cache,
                }
            }
        },
        SourceV::Custom { name: _, items } => eval_items(items, dict, draws, pos, cache),
    }
}

/// Evaluate a sequence of expression items in order and concatenate.
pub open spec fn eval_items(
    items: Seq<ExpressionItemV>,
    dict: Seq<Seq<char>>,
    draws: Seq<usize>,
    pos: nat,
    cache: CacheModel,
) -> EvalOut
    decreases items, 0nat,
{
    if items.len() == 0 {
        EvalOut { out: Seq::empty(), pos, cache }
    } else {
        let first = eval_item(items[0], dict, draws, pos, cache);
        let rest = eval_items(items.drop_first(), dict, draws, first.pos, first.cache);
        EvalOut { out: first.out + rest.out, pos: rest.pos, cache: rest.cache }
    }
}

/// Evaluate one expression item.
pub open spec fn eval_item(
    item: ExpressionItemV,
    dict: Seq<Seq<char>>,
    draws: Seq<usize>,
    pos: nat,
    cache: CacheModel,
) -> EvalOut
    decreases item, 0nat,
{
    match item {
        ExpressionItemV::Block(b) => eval_block(b, dict, draws, pos, cache),
        ExpressionItemV::Group(g) => eval_group(g, dict, draws, pos, cache),
    }
}

/// Evaluate one block. A labeled block draws (and filters) at most once:
/// on a cache hit the stored post-filter text is reused verbatim and no
/// draw is consumed; on a miss the fresh post-filter text is stored. The
/// single resulting text is then repeated `repeat` times. An unlabeled
/// block performs `repeat` independent draws, each filtered separately.
pub open spec fn eval_block(
    b: BlockV,
    dict: Seq<Seq<char>>,
    draws: Seq<usize>,
    pos: nat,
    cache: CacheModel,
) -> EvalOut
    decreases b, 256nat,
{
    match b.source.label {
        Some(l) => {
            let k = kind_code(b.source.source);
            let nm = kind_name(b.source.source);
            match cache_lookup(cache, k, nm, l as int) {
                Some(v) => EvalOut { out: repeat_seq(v, b.repeat as nat), pos, cache },
                None => {
                    let drawn = eval_source(b.source.source, dict, draws, pos, cache);
                    let f = filters_spec(b.filters, drawn.out);
                    EvalOut {
                        out: repeat_seq(f, b.repeat as nat),
                        pos: drawn.pos,
                        cache: drawn.cache.push((k, nm, l as int, f)),
                    }
                },
            }
        },
        None => eval_block_reps(b, b.repeat as nat, dict, draws, pos, cache),
    }
}

/// `k` independent draw-filter iterations of an unlabeled block,
/// concatenated.
pub open spec fn eval_block_reps(
    b: BlockV,
    k: nat,
    dict: Seq<Seq<char>>,
    draws: Seq<usize>,
    pos: nat,
    cache: CacheModel,
) -> EvalOut
    decreases b, k,
{
    if k == 0 {
        EvalOut { out: Seq::empty(), pos, cache }
    } else {
        let drawn = eval_source(b.source.source, dict, draws, pos, cache);
        let f = filters_spec(b.filters, drawn.out);
        let rest = eval_block_reps(b, (k - 1) as nat, dict, draws, drawn.pos, drawn.cache);
        EvalOut { out: f + rest.out, pos: rest.pos, cache: rest.cache }
    }
}

/// Evaluate a group: all blocks in order, `repeat` times over, then the
/// group's filters once over the whole concatenation.
pub open spec fn eval_group(
    g: GroupV,
    dict: Seq<Seq<char>>,
    draws: Seq<usize>,
    pos: nat,
    cache: CacheModel,
) -> EvalOut
    decreases g, 256nat,
{
    let body = eval_group_reps(g, g.repeat as nat, dict, draws, pos, cache);
    EvalOut { out: filters_spec(g.filters, body.out), pos: body.pos, cache: body.cache }
}

/// `k` iterations of a group's block run, concatenated, unfiltered.
pub open spec fn eval_group_reps(
    g: GroupV,
    k: nat,
    dict: Seq<Seq<char>>,
    draws: Seq<usize>,
    pos: nat,
    cache: CacheModel,
) -> EvalOut
    decreases g, k,
{
    if k == 0 {
        EvalOut { out: Seq::empty(), pos, cache }
    } else {
        let one = eval_blocks(g.blocks, dict, draws, pos, cache);
        let rest = eval_group_reps(g, (k - 1) as nat, dict, draws, one.pos, one.cache);
        EvalOut { out: one.out + rest.out, pos: rest.pos, cache: rest.cache }
    }
}

/// Evaluate a sequence of blocks in order and concatenate.
pub open spec fn eval_blocks(
    blocks: Seq<BlockV>,
    dict: Seq<Seq<char>>,
    draws: Seq<usize>,
    pos: nat,
    cache: CacheModel,
) -> EvalOut
    decreases blocks, 0nat,
{
    if blocks.len() == 0 {
        EvalOut { out: Seq::empty(), pos, cache }
    } else {
        let first = eval_block(blocks[0], dict, draws, pos, cache);
        let rest = eval_blocks(blocks.drop_first(), dict, draws, first.pos, first.cache);
        EvalOut { out: first.out + rest.out, pos: rest.pos, cache: rest.cache }
    }
}

/// Evaluate a whole expression: a fresh, empty cache, then all items in
/// order. The cache never outlives the call.
pub open spec fn eval_expr(
    e: ExpressionV,
    dict: Seq<Seq<char>>,
    draws: Seq<usize>,
    pos: nat,
) -> EvalOut {
    eval_items(e.items, dict, draws, pos, Seq::empty())
}

/// One stored labeled value: the key (source kind, custom name, label) and
/// the post-filter text drawn for it.
pub struct CacheEntry {
    /// The numeric code of the source kind.
    pub kind: u8,
    /// The definition name for a custom source, empty otherwise.
    pub name: String,
    /// The label, in 1..=99.
    pub label: u8,
    /// The stored post-filter text.
    pub value: Vec<char>,
}

/// The per-call cache of labeled values, scoped to one generation call.
pub struct EvaluationCache {
    /// The stored entries, oldest first.
    pub entries: Vec<CacheEntry>,
}

impl View for EvaluationCache {
    type V = CacheModel;

    open spec fn view(&self) -> CacheModel {
        Seq::new(
            self.entries@.len(),
            |i: int| (
                self.entries@[i].kind as int,
                self.entries@[i].name@,
                self.entries@[i].label as int,
                self.entries@[i].value@,
            ),
        )
    }
}

impl EvaluationCache {
    /// A fresh, empty cache.
    pub fn new() -> (r: EvaluationCache)
        ensures
            r@ == CacheModel::empty(),
    {
        let r = EvaluationCache { entries: Vec::new() };
        proof {
            assert(r@ =~= CacheModel::empty());
        }
        r
    }

    /// Look the key up; the stored text of the first matching entry.
    pub fn get(&self, kind: u8, name: &String, label: u8) -> (r: Option<Vec<char>>)
        ensures
            ({
                let lr = cache_lookup(self@, kind as int, name@, label as int);
                match r {
                    Some(v) => lr == Some(v@),
                    None => lr is None,
                }
            }),
    {
        let r = self.get_from(0, kind, name, label);
        proof {
            assert(self@.skip(0) =~= self@);
        }
        r
    }

    /// Look the key up among the entries from index `i` on.
    fn get_from(&self, i: usize, kind: u8, name: &String, label: u8) -> (r: Option<
        Vec<char>,
    >)
        requires
            i <= self.entries@.len(),
        ensures
            ({
                let lr = cache_lookup(self@.skip(i as int), kind as int, name@, label as int);
                match r {
                    Some(v) => lr == Some(v@),
                    None => lr is None,
                }
            }),
        decreases self.entries@.len() - i,
    {
        if i == self.entries.len() {
            proof {
                assert(self@.skip(i as int) =~= CacheModel::empty());
            }
            None
        } else {
            let e = &self.entries[i];
            proof {
                assert(self@.skip(i as int)[0] == self@[i as int]);
            }
            if e.kind == kind && e.label == label && e.name.eq(name) {
                Some(clone_chars(&e.value))
            } else {
                let r = self.get_from(i + 1, kind, name, label);
                proof {
                    assert(self@.skip(i as int).drop_first() =~= self@.skip(i + 1));
                }
                r
            }
        }
    }

    /// Store a value under a key. Meant for keys not yet present: lookup
    /// returns the first match, so an existing key would shadow this entry.
    pub fn insert(&mut self, kind: u8, name: String, label: u8, value: Vec<char>)
        ensures
            final(self)@ == old(self)@.push(
                (kind as int, name@, label as int, value@),
            ),
    {
        let ghost old_view = self@;
        let ghost key: (int, Seq<char>, int, Seq<char>) = (
            kind as int,
            name@,
            label as int,
            value@,
        );
        self.entries.push(CacheEntry { kind, name, label, value });
        proof {
            assert(self@ =~= old_view.push(key));
        }
    }
}

/// An exact copy of a character vector.
pub fn clone_chars(v: &Vec<char>) -> (r: Vec<char>)
    ensures
        r@ == v@,
{
    let mut r: Vec<char> = Vec::new();
    let mut i: usize = 0;
    while i < v.len()
        invariant
            i <= v@.len(),
            r@ == v@.take(i as int),
        decreases v@.len() - i,
    {
        r.push(v[i]);
        proof {
            assert(r@ =~= v@.take(i + 1));
        }
        i = i + 1;
    }
    proof {
        assert(r@ =~= v@);
    }
    r
}

/// The repeated concatenation of a character vector, `n` copies.
pub fn repeat_chars(s: &Vec<char>, n: u8) -> (r: Vec<char>)
    ensures
        r@ == repeat_seq(s@, n as nat),
    decreases n,
{
    if n == 0 {
        Vec::new()
    } else {
        let mut first = clone_chars(s);
        let mut rest = repeat_chars(s, n - 1);
        first.append(&mut rest);
        first
    }
}

/// The numeric code of this source's kind, for the cache key.
pub fn source_kind(s: &Source) -> (k: u8)
    ensures
        k as int == kind_code(s@),
{
    match s {
        Source::Word(_, _) => 0,
        Source::Letter => 1,
        Source::Symbol => 2,
        Source::Digit => 3,
        Source::CharacterList(_) => 4,
        Source::Custom(_, _) => 5,
    }
}

/// The name part of this source's cache key.
pub fn source_kind_name(s: &Source) -> (n: String)
    ensures
        n@ == kind_name(s@),
{
    match s {
        Source::Custom(name, _) => name.clone(),
        _ => String::new(),
    }
}

/// The dictionary words whose character count lies in `[lo, hi]`.
fn filter_words(dict: &Vec<String>, lo: usize, hi: usize) -> (r: Vec<String>)
    ensures
        r.deep_view() == word_candidates(dict.deep_view(), lo as int, hi as int),
{
    let mut r: Vec<String> = Vec::new();
    let mut i: usize = 0;
    while i < dict.len()
        invariant
            i <= dict@.len(),
            r.deep_view() == word_candidates(
                dict.deep_view().take(i as int),
                lo as int,
                hi as int,
            ),
        decreases dict@.len() - i,
    {
        let ghost prefix = dict.deep_view().take(i as int);
        let ghost next_prefix = dict.deep_view().take(i + 1);
        proof {
            assert(next_prefix.drop_last() =~= prefix);
            assert(next_prefix.last() == dict.deep_view()[i as int]);
            assert(dict.deep_view()[i as int] == dict@[i as int]@);
        }
        let len = dict[i].as_str().unicode_len();
        if lo <= len && len <= hi {
            let w = dict[i].clone();
            r.push(w);
            proof {
                assert(r.deep_view() =~= word_candidates(next_prefix, lo as int, hi as int));
            }
        } else {
            proof {
                assert(r.deep_view() =~= word_candidates(next_prefix, lo as int, hi as int));
            }
        }
        i = i + 1;
    }
    proof {
        assert(dict.deep_view().take(dict@.len() as int) =~= dict.deep_view());
    }
    r
}

impl Source {
    /// Draw one value from this source, reading and threading the cache
    /// through any custom body it expands.
    pub fn generate(
        &self,
        dict: &Vec<String>,
        rng: &mut DrawSource,
        cache: &mut EvaluationCache,
    ) -> (out: Vec<char>)
        ensures
            ({
                let r = eval_source(
                    self@,
                    dict.deep_view(),
                    old(rng).draws@,
                    old(rng).pos as nat,
                    old(cache)@,
                );
                out@ == r.out && final(rng).draws@ == old(rng).draws@ && final(rng).pos as nat == r.pos && final(cache)@ == r.cache
            }),
        decreases *self, 0nat,
    {
        match self {
            Source::Word(min, max) => {
                let lo: usize = match min {
                    Some(v) => *v as usize,
                    None => 0,
                };
                let hi: usize = match max {
                    Some(v) => *v as usize,
                    None => 255,
                };
                let cands = filter_words(dict, lo, hi);
                if cands.len() == 0 {
                    Vec::new()
                } else {
                    let idx = rng.pick(cands.len());
                    proof {
                        assert(cands.deep_view()[idx as int] == cands@[idx as int]@);
                    }
                    str_to_chars(&cands[idx])
                }
            },
            Source::Letter => {
                let al = letters();
                let idx = rng.pick(al.len());
                vec![al[idx]]
            },
            Source::Symbol => {
                let al = symbols();
                let idx = rng.pick(al.len());
                vec![al[idx]]
            },
            Source::Digit => {
                let al = digits();
                let idx = rng.pick(al.len());
                vec![al[idx]]
            },
            Source::CharacterList(chars) => {
                let n = chars.as_str().unicode_len();
                if n == 0 {
                    Vec::new()
                } else {
                    let idx = rng.pick(n);
                    let c = chars.as_str().get_char(idx);
                    vec![c]
                }
            },
            Source::Custom(_, items) => {
                let r = generate_items_from(items, 0, dict, rng, cache);
                proof {
                    assert(items_view(items@).skip(0) =~= items_view(items@));
                }
                r
            },
        }
    }
}

/// Evaluate the items from index `i` on, in order, and concatenate.
fn generate_items_from(
    items: &Vec<ExpressionItem>,
    i: usize,
    dict: &Vec<String>,
    rng: &mut DrawSource,
    cache: &mut EvaluationCache,
) -> (out: Vec<char>)
    requires
        i <= items@.len(),
    ensures
        ({
            let r = eval_items(
                items_view(items@).skip(i as int),
                dict.deep_view(),
                old(rng).draws@,
                old(rng).pos as nat,
                old(cache)@,
            );
            out@ == r.out && final(rng).draws@ == old(rng).draws@ && final(rng).pos as nat == r.pos && final(cache)@ == r.cache
        }),
    decreases items@, items@.len() - i,
{
    proof {
        lemma_items_view(items@);
    }
    if i == items.len() {
        proof {
            assert(items_view(items@).skip(i as int) =~= Seq::<ExpressionItemV>::empty());
        }
        Vec::new()
    } else {
        let mut first = items[i].generate(dict, rng, cache);
        let rest = generate_items_from(items, i + 1, dict, rng, cache);
        proof {
            assert(items_view(items@).skip(i as int)[0] == items_view(items@)[i as int]);
            assert(items_view(items@).skip(i as int).drop_first() =~= items_view(
                items@,
            ).skip(i + 1));
        }
        let mut rest = rest;
        first.append(&mut rest);
        first
    }
}

impl ExpressionItem {
    /// Evaluate this item: a bare block or a group.
    pub fn generate(
        &self,
        dict: &Vec<String>,
        rng: &mut DrawSource,
        cache: &mut EvaluationCache,
    ) -> (out: Vec<char>)
        ensures
            ({
                let r = eval_item(
                    self@,
                    dict.deep_view(),
                    old(rng).draws@,
                    old(rng).pos as nat,
                    old(cache)@,
                );
                out@ == r.out && final(rng).draws@ == old(rng).draws@ && final(rng).pos as nat == r.pos && final(cache)@ == r.cache
            }),
        decreases *self, 0nat,
    {
        match self {
            ExpressionItem::Block(b) => b.generate(dict, rng, cache),
            ExpressionItem::Group(g) => g.generate(dict, rng, cache),
        }
    }
}

impl Block {
    /// Evaluate this block. With a label, the drawn, filtered text is
    /// cached under (kind, name, label) and reused verbatim on a hit; the
    /// single text is repeated `repeat` times. Without a label, each of
    /// the `repeat` iterations draws and filters independently.
    pub fn generate(
        &self,
        dict: &Vec<String>,
        rng: &mut DrawSource,
        cache: &mut EvaluationCache,
    ) -> (out: Vec<char>)
        ensures
            ({
                let r = eval_block(
                    self@,
                    dict.deep_view(),
                    old(rng).draws@,
                    old(rng).pos as nat,
                    old(cache)@,
                );
                out@ == r.out && final(rng).draws@ == old(rng).draws@ && final(rng).pos as nat == r.pos && final(cache)@ == r.cache
            }),
        decreases *self, 256nat,
    {
        match self.source.label {
            Some(l) => {
                let k = source_kind(&self.source.source);
                let nm = source_kind_name(&self.source.source);
                match cache.get(k, &nm, l) {
                    Some(v) => repeat_chars(&v, self.repeat),
                    None => {
                        let drawn = self.source.source.generate(dict, rng, cache);
                        let f = apply_filters(&self.filters, drawn);
                        let rep = repeat_chars(&f, self.repeat);
                        cache.insert(k, nm, l, f);
                        rep
                    },
                }
            },
            None => self.generate_reps(self.repeat, dict, rng, cache),
        }
    }

    /// `k` independent draw-filter iterations of this block, concatenated.
    fn generate_reps(
        &self,
        k: u8,
        dict: &Vec<String>,
        rng: &mut DrawSource,
        cache: &mut EvaluationCache,
    ) -> (out: Vec<char>)
        ensures
            ({
                let r = eval_block_reps(
                    self@,
                    k as nat,
                    dict.deep_view(),
                    old(rng).draws@,
                    old(rng).pos as nat,
                    old(cache)@,
                );
                out@ == r.out && final(rng).draws@ == old(rng).draws@ && final(rng).pos as nat == r.pos && final(cache)@ == r.cache
            }),
        decreases *self, k as nat,
    {
        if k == 0 {
            Vec::new()
        } else {
            let drawn = self.source.source.generate(dict, rng, cache);
            let mut f = apply_filters(&self.filters, drawn);
            let mut rest = self.generate_reps(k - 1, dict, rng, cache);
            f.append(&mut rest);
            f
        }
    }
}

impl Group {
    /// Evaluate this group: all blocks in order, `repeat` times over, then
    /// the group's filters once over the whole concatenation.
    pub fn generate(
        &self,
        dict: &Vec<String>,
        rng: &mut DrawSource,
        cache: &mut EvaluationCache,
    ) -> (out: Vec<char>)
        ensures
            ({
                let r = eval_group(
                    self@,
                    dict.deep_view(),
                    old(rng).draws@,
                    old(rng).pos as nat,
                    old(cache)@,
                );
                out@ == r.out && final(rng).draws@ == old(rng).draws@ && final(rng).pos as nat == r.pos && final(cache)@ == r.cache
            }),
        decreases *self, 256nat,
    {
        let body = self.generate_reps(self.repeat, dict, rng, cache);
        apply_filters(&self.filters, body)
    }

    /// `k` iterations of this group's block run, concatenated, unfiltered.
    fn generate_reps(
        &self,
        k: u8,
        dict: &Vec<String>,
        rng: &mut DrawSource,
        cache: &mut EvaluationCache,
    ) -> (out: Vec<char>)
        ensures
            ({
                let r = eval_group_reps(
                    self@,
                    k as nat,
                    dict.deep_view(),
                    old(rng).draws@,
                    old(rng).pos as nat,
                    old(cache)@,
                );
                out@ == r.out && final(rng).draws@ == old(rng).draws@ && final(rng).pos as nat == r.pos && final(cache)@ == r.cache
            }),
        decreases *self, k as nat,
    {
        if k == 0 {
            Vec::new()
        } else {
            let mut one = generate_blocks_from(&self.blocks, 0, dict, rng, cache);
            proof {
                assert(blocks_view(self.blocks@).skip(0) =~= blocks_view(self.blocks@));
            }
            let mut rest = self.generate_reps(k - 1, dict, rng, cache);
            one.append(&mut rest);
            one
        }
    }
}

/// Evaluate the blocks from index `i` on, in order, and concatenate.
fn generate_blocks_from(
    blocks: &Vec<Block>,
    i: usize,
    dict: &Vec<String>,
    rng: &mut DrawSource,
    cache: &mut EvaluationCache,
) -> (out: Vec<char>)
    requires
        i <= blocks@.len(),
    ensures
        ({
            let r = eval_blocks(
                blocks_view(blocks@).skip(i as int),
                dict.deep_view(),
                old(rng).draws@,
                old(rng).pos as nat,
                old(cache)@,
            );
            out@ == r.out && final(rng).draws@ == old(rng).draws@ && final(rng).pos as nat == r.pos && final(cache)@ == r.cache
        }),
    decreases blocks@, blocks@.len() - i,
{
    proof {
        lemma_blocks_view(blocks@);
    }
    if i == blocks.len() {
        proof {
            assert(blocks_view(blocks@).skip(i as int) =~= Seq::<BlockV>::empty());
        }
        Vec::new()
    } else {
        let mut first = blocks[i].generate(dict, rng, cache);
        let rest = generate_blocks_from(blocks, i + 1, dict, rng, cache);
        proof {
            assert(blocks_view(blocks@).skip(i as int)[0] == blocks_view(blocks@)[i as int]);
            assert(blocks_view(blocks@).skip(i as int).drop_first() =~= blocks_view(
                blocks@,
            ).skip(i + 1));
        }
        let mut rest = rest;
        first.append(&mut rest);
        first
    }
}

impl Expression {
    /// Produce one password: allocate a fresh cache, evaluate every item
    /// in order against the dictionary and the draw source, and
    /// concatenate. The whole result is a deterministic function of the
    /// expression, the dictionary and the draw sequence.
    pub fn generate(&self, dict: &Vec<String>, rng: &mut DrawSource) -> (out: String)
        ensures
            ({
                let r = eval_expr(
                    self@,
                    dict.deep_view(),
                    old(rng).draws@,
                    old(rng).pos as nat,
                );
                out@ == r.out && final(rng).draws@ == old(rng).draws@ && final(rng).pos as nat == r.pos
            }),
    {
        let mut cache = EvaluationCache::new();
        let out = generate_items_from(&self.items, 0, dict, rng, &mut cache);
        proof {
            assert(items_view(self.items@).skip(0) =~= items_view(self.items@));
        }
        chars_to_string(&out)
    }
}

} // verus!
