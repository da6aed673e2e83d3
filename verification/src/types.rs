//! The abstract syntax tree of the template language, its mathematical
//! model, and the filter engine.
//!
//! Each executable type has a ghost counterpart (`SourceV`, `BlockV`, ...)
//! in which strings are character sequences and vectors are sequences;
//! contracts throughout the crate speak of those models.
use vstd::prelude::*;

use crate::text::ascii_upper;
use crate::text::lower_of;
use crate::text::lower_chars;
use crate::text::to_ascii_upper;
use crate::text::upper_of;
use crate::text::upper_chars;
use crate::text::str_to_chars;
use crate::text::chars_to_string;

verus! {

/// Where a block's text comes from: a dictionary word (with optional
/// length bounds), one character from a fixed alphabet, one character from
/// a literal list, or a named sub-template with its resolved body.
#[derive(Debug)]
pub enum Source {
    /// A dictionary word whose character count lies within the bounds.
    Word(Option<u8>, Option<u8>),
    /// One character from the letter alphabet.
    Letter,
    /// One character from the symbol alphabet.
    Symbol,
    /// One character from the digit alphabet.
    Digit,
    /// One character from this literal list (may be empty).
    CharacterList(String),
    /// A named sub-template: its name and its resolved body.
    Custom(String, Vec<ExpressionItem>),
}

/// A source together with an optional label in 1..=99. A labeled source's
/// drawn value is cached and reused at every later occurrence of the same
/// label and source kind within one generation call.
#[derive(Debug)]
pub struct LabeledSource {
    /// Where the text comes from.
    pub source: Source,
    /// The label under which the drawn value is cached, if any.
    pub label: Option<u8>,
}

/// A pure string transform applied after a source produces a value.
#[derive(Clone, Copy, Debug, PartialEq, Eq, Structural)]
pub enum Filter {
    /// Reverse the character order.
    Reversed,
    /// Uppercase every character (Unicode mapping).
    Upper,
    /// Lowercase every character (Unicode mapping).
    Lower,
    /// Uppercase the first character only (ASCII mapping).
    CapitalizeFirst,
    /// Uppercase the last character only (ASCII mapping).
    CapitalizeLast,
    /// Uppercase every character except the first (ASCII mapping).
    CapitalizeNotFirst,
    /// Uppercase every character except the last (ASCII mapping).
    CapitalizeNotLast,
}

/// One `min`/`max` bound from a key-value list on a word source.
#[derive(Clone, Copy, Debug, PartialEq, Eq, Structural)]
pub enum KeyValue {
    /// A lower bound on the word's character count.
    Min(u8),
    /// An upper bound on the word's character count.
    Max(u8),
}

/// The minimal unit of generation: one labeled source, a filter chain, and
/// a repeat count in 1..=99.
#[derive(Debug)]
pub struct Block {
    /// Where the text comes from, with its optional label.
    pub source: LabeledSource,
    /// Filters applied in declaration order after each draw.
    pub filters: Vec<Filter>,
    /// How many times the block contributes.
    pub repeat: u8,
}

/// An ordered run of blocks evaluated as a unit: all blocks are evaluated
/// `repeat` times, and the filter chain is applied once to the whole
/// concatenation.
#[derive(Debug)]
pub struct Group {
    /// The blocks, in order.
    pub blocks: Vec<Block>,
    /// Filters applied once to the whole repeated concatenation.
    pub filters: Vec<Filter>,
    /// How many times the run of blocks repeats.
    pub repeat: u8,
}

/// One item of a template: a bare block or a group.
#[derive(Debug)]
pub enum ExpressionItem {
    /// A bare block.
    Block(Block),
    /// A group of blocks.
    Group(Group),
}

/// A parsed template: a non-empty ordered sequence of items.
#[derive(Debug)]
pub struct Expression {
    /// The items, in order.
    pub items: Vec<ExpressionItem>,
}

/// Ghost counterpart of [`Source`].
pub enum SourceV {
    /// A dictionary word whose character count lies within the bounds.
    Word { min: Option<u8>, max: Option<u8> },
    /// One character from the letter alphabet.
    Letter,
    /// One character from the symbol alphabet.
    Symbol,
    /// One character from the digit alphabet.
    Digit,
    /// One character from this literal list.
    CharacterList { chars: Seq<char> },
    /// A named sub-template and its resolved body.
    Custom { name: Seq<char>, items: Seq<ExpressionItemV> },
}

/// Ghost counterpart of [`LabeledSource`].
pub struct LabeledSourceV {
    /// Where the text comes from.
    pub source: SourceV,
    /// The label under which the drawn value is cached, if any.
    pub label: Option<u8>,
}

/// Ghost counterpart of [`Block`].
pub struct BlockV {
    /// Where the text comes from, with its optional label.
    pub source: LabeledSourceV,
    /// Filters applied in declaration order after each draw.
    pub filters: Seq<Filter>,
    /// How many times the block contributes.
    pub repeat: u8,
}

/// Ghost counterpart of [`Group`].
pub struct GroupV {
    /// The blocks, in order.
    pub blocks: Seq<BlockV>,
    /// Filters applied once to the whole repeated concatenation.
    pub filters: Seq<Filter>,
    /// How many times the run of blocks repeats.
    pub repeat: u8,
}

/// Ghost counterpart of [`ExpressionItem`].
pub enum ExpressionItemV {
    /// A bare block.
    Block(BlockV),
    /// A group of blocks.
    Group(GroupV),
}

/// Ghost counterpart of [`Expression`].
pub struct ExpressionV {
    /// The items, in order.
    pub items: Seq<ExpressionItemV>,
}

/// The model of a source.
pub open spec fn source_view(s: Source) -> SourceV
    decreases s, 1nat,
{
    match s {
        Source::Word(min, max) => SourceV::Word { min, max },
        Source::Letter => SourceV::Letter,
        Source::Symbol => SourceV::Symbol,
        Source::Digit => SourceV::Digit,
        Source::CharacterList(chars) => SourceV::CharacterList { chars: chars@ },
        Source::Custom(name, items) => SourceV::Custom {
            name: name@,
            items: items_view(items@),
        },
    }
}

/// The model of a sequence of expression items.
pub open spec fn items_view(v: Seq<ExpressionItem>) -> Seq<ExpressionItemV>
    decreases v, 1nat,
{
    if v.len() == 0 {
        Seq::empty()
    } else {
        seq![item_view(v[0])] + items_view(v.drop_first())
    }
}

/// The model of one expression item.
pub open spec fn item_view(it: ExpressionItem) -> ExpressionItemV
    decreases it, 1nat,
{
    match it {
        ExpressionItem::Block(b) => ExpressionItemV::Block(block_view(b)),
        ExpressionItem::Group(g) => ExpressionItemV::Group(group_view(g)),
    }
}

/// The model of a block.
pub open spec fn block_view(b: Block) -> BlockV
    decreases b, 1nat,
{
    BlockV {
        source: LabeledSourceV {
            source: source_view(b.source.source),
            label: b.source.label,
        },
        filters: b.filters@,
        repeat: b.repeat,
    }
}

/// The model of a group.
pub open spec fn group_view(g: Group) -> GroupV
    decreases g, 1nat,
{
    GroupV { blocks: blocks_view(g.blocks@), filters: g.filters@, repeat: g.repeat }
}

/// The model of a sequence of blocks.
pub open spec fn blocks_view(v: Seq<Block>) -> Seq<BlockV>
    decreases v, 2nat,
{
    if v.len() == 0 {
        Seq::empty()
    } else {
        seq![block_view(v[0])] + blocks_view(v.drop_first())
    }
}

impl View for Source {
    type V = SourceV;

    open spec fn view(&self) -> SourceV {
        source_view(*self)
    }
}

impl View for LabeledSource {
    type V = LabeledSourceV;

    open spec fn view(&self) -> LabeledSourceV {
        LabeledSourceV { source: source_view(self.source), label: self.label }
    }
}

impl View for Block {
    type V = BlockV;

    open spec fn view(&self) -> BlockV {
        block_view(*self)
    }
}

impl View for Group {
    type V = GroupV;

    open spec fn view(&self) -> GroupV {
        group_view(*self)
    }
}

impl View for ExpressionItem {
    type V = ExpressionItemV;

    open spec fn view(&self) -> ExpressionItemV {
        item_view(*self)
    }
}

impl View for Expression {
    type V = ExpressionV;

    open spec fn view(&self) -> ExpressionV {
        ExpressionV { items: items_view(self.items@) }
    }
}

/// The length and elements of a modeled item sequence, elementwise.
pub proof fn lemma_items_view(v: Seq<ExpressionItem>)
    ensures
        items_view(v).len() == v.len(),
        forall|i: int| 0 <= i < v.len() ==> items_view(v)[i] == item_view(#[trigger] v[i]),
    decreases v.len(),
{
    if v.len() > 0 {
        lemma_items_view(v.drop_first());
        assert forall|i: int| 0 <= i < v.len() implies items_view(v)[i] == item_view(
            #[trigger] v[i],
        ) by {
            if i > 0 {
                assert(items_view(v)[i] == items_view(v.drop_first())[i - 1]);
                assert(v.drop_first()[i - 1] == v[i]);
            }
        }
    }
}

/// The length and elements of a modeled block sequence, elementwise.
pub proof fn lemma_blocks_view(v: Seq<Block>)
    ensures
        blocks_view(v).len() == v.len(),
        forall|i: int| 0 <= i < v.len() ==> blocks_view(v)[i] == block_view(#[trigger] v[i]),
    decreases v.len(),
{
    if v.len() > 0 {
        lemma_blocks_view(v.drop_first());
        assert forall|i: int| 0 <= i < v.len() implies blocks_view(v)[i] == block_view(
            #[trigger] v[i],
        ) by {
            if i > 0 {
                assert(blocks_view(v)[i] == blocks_view(v.drop_first())[i - 1]);
                assert(v.drop_first()[i - 1] == v[i]);
            }
        }
    }
}

/// What one filter does to a character sequence. All filters leave an
/// empty sequence empty.
pub open spec fn filter_spec(f: Filter, s: Seq<char>) -> Seq<char> {
    match f {
        Filter::Reversed => s.reverse(),
        Filter::Upper => upper_of(s),
        Filter::Lower => lower_of(s),
        Filter::CapitalizeFirst => if s.len() == 0 {
            s
        } else {
            s.update(0, ascii_upper(s[0]))
        },
        Filter::CapitalizeLast => if s.len() == 0 {
            s
        } else {
            s.update(s.len() - 1, ascii_upper(s[s.len() - 1]))
        },
        Filter::CapitalizeNotFirst => Seq::new(
            s.len(),
            |i: int| if i == 0 {
                s[i]
            } else {
                ascii_upper(s[i])
            },
        ),
        Filter::CapitalizeNotLast => Seq::new(
            s.len(),
            |i: int| if i == s.len() - 1 {
                s[i]
            } else {
                ascii_upper(s[i])
            },
        ),
    }
}

/// What a filter chain does: the filters apply in order, left to right.
pub open spec fn filters_spec(fs: Seq<Filter>, s: Seq<char>) -> Seq<char>
    decreases fs.len(),
{
    if fs.len() == 0 {
        s
    } else {
        filters_spec(fs.drop_first(), filter_spec(fs[0], s))
    }
}

impl Filter {
    /// Apply this filter to a character sequence.
    pub fn apply_chars(&self, input: &Vec<char>) -> (r: Vec<char>)
        ensures
            r@ == filter_spec(*self, input@),
    {
        match self {
            Filter::Reversed => {
                let n = input.len();
                let mut out: Vec<char> = Vec::new();
                let mut j: usize = 0;
                while j < n
                    invariant
                        n == input@.len(),
                        j <= n,
                        out@ == Seq::new(j as nat, |i: int| input@[n - 1 - i]),
                    decreases n - j,
                {
                    out.push(input[n - 1 - j]);
                    proof {
                        assert(out@ =~= Seq::new(
                            (j + 1) as nat,
                            |i: int| input@[n - 1 - i],
                        ));
                    }
                    j = j + 1;
                }
                proof {
                    assert(out@ =~= input@.reverse());
                }
                out
            },
            Filter::Upper => upper_chars(input),
            Filter::Lower => lower_chars(input),
            Filter::CapitalizeFirst => {
                let mut out: Vec<char> = Vec::new();
                if input.len() == 0 {
                    proof {
                        assert(out@ =~= filter_spec(*self, input@));
                    }
                    return out;
                }
                out.push(to_ascii_upper(input[0]));
                let mut j: usize = 1;
                while j < input.len()
                    invariant
                        1 <= j <= input@.len(),
                        out@ == input@.update(0, ascii_upper(input@[0])).take(j as int),
                    decreases input@.len() - j,
                {
                    out.push(input[j]);
                    proof {
                        assert(out@ =~= input@.update(0, ascii_upper(input@[0])).take(
                            j + 1,
                        ));
                    }
                    j = j + 1;
                }
                proof {
                    assert(out@ =~= input@.update(0, ascii_upper(input@[0])));
                }
                out
            },
            Filter::CapitalizeLast => {
                let n = input.len();
                let mut out: Vec<char> = Vec::new();
                if n == 0 {
                    proof {
                        assert(out@ =~= filter_spec(*self, input@));
                    }
                    return out;
                }
                let ghost target = input@.update(
                    n - 1,
                    ascii_upper(input@[n - 1]),
                );
                let mut j: usize = 0;
                while j < n - 1
                    invariant
                        1 <= n == input@.len(),
                        j <= n - 1,
                        target == input@.update(n - 1, ascii_upper(input@[n - 1])),
                        out@ == target.take(j as int),
                    decreases n - j,
                {
                    out.push(input[j]);
                    proof {
                        assert(out@ =~= target.take(j + 1));
                    }
                    j = j + 1;
                }
                out.push(to_ascii_upper(input[n - 1]));
                proof {
                    assert(out@ =~= target);
                }
                out
            },
            Filter::CapitalizeNotFirst => {
                let n = input.len();
                let ghost target = filter_spec(*self, input@);
                let mut out: Vec<char> = Vec::new();
                let mut j: usize = 0;
                while j < n
                    invariant
                        n == input@.len(),
                        j <= n,
                        target == filter_spec(Filter::CapitalizeNotFirst, input@),
                        out@ == target.take(j as int),
                    decreases n - j,
                {
                    if j == 0 {
                        out.push(input[0]);
                    } else {
                        out.push(to_ascii_upper(input[j]));
                    }
                    proof {
                        assert(out@ =~= target.take(j + 1));
                    }
                    j = j + 1;
                }
                proof {
                    assert(out@ =~= target);
                }
                out
            },
            Filter::CapitalizeNotLast => {
                let n = input.len();
                let ghost target = filter_spec(*self, input@);
                let mut out: Vec<char> = Vec::new();
                let mut j: usize = 0;
                while j < n
                    invariant
                        n == input@.len(),
                        j <= n,
                        target == filter_spec(Filter::CapitalizeNotLast, input@),
                        out@ == target.take(j as int),
                    decreases n - j,
                {
                    if j == n - 1 {
                        out.push(input[j]);
                    } else {
                        out.push(to_ascii_upper(input[j]));
                    }
                    proof {
                        assert(out@ =~= target.take(j + 1));
                    }
                    j = j + 1;
                }
                proof {
                    assert(out@ =~= target);
                }
                out
            },
        }
    }

    /// Apply this filter to a string.
    pub fn apply(&self, input: &str) -> (r: String)
        ensures
            r@ == filter_spec(*self, input@),
    {
        let chars = str_to_chars(input);
        let out = self.apply_chars(&chars);
        chars_to_string(&out)
    }
}

/// Apply a whole filter chain, in declaration order.
pub fn apply_filters(filters: &Vec<Filter>, input: Vec<char>) -> (r: Vec<char>)
    ensures
        r@ == filters_spec(filters@, input@),
{
    let r = apply_filters_from(filters, 0, input);
    proof {
        assert(filters@.skip(0) =~= filters@);
    }
    r
}

/// Apply the filter chain from index `i` on.
fn apply_filters_from(filters: &Vec<Filter>, i: usize, input: Vec<char>) -> (r: Vec<char>)
    requires
        i <= filters@.len(),
    ensures
        r@ == filters_spec(filters@.skip(i as int), input@),
    decreases filters@.len() - i,
{
    if i == filters.len() {
        input
    } else {
        let once = filters[i].apply_chars(&input);
        let r = apply_filters_from(filters, i + 1, once);
        proof {
            assert(filters@.skip(i as int).drop_first() =~= filters@.skip(i + 1));
            assert(filters@.skip(i as int)[0] == filters@[i as int]);
        }
        r
    }
}


/// An exact copy of a filter chain.
pub fn clone_filters(v: &Vec<Filter>) -> (r: Vec<Filter>)
    ensures
        r@ == v@,
{
    let mut r: Vec<Filter> = Vec::new();
    let mut i: usize = 0;
    while i < v.len()
        invariant
            i <= v@.len(),
            r@ == v@.take(i as int),
        decreases v@.len() - i,
    {
        r.push(v[i]);
        proof {
            assert(r@ =~= v@.take(i + 1));
        }
        i = i + 1;
    }
    proof {
        assert(r@ =~= v@);
    }
    r
}

/// A copy of a source with the same model.
pub fn clone_source(s: &Source) -> (r: Source)
    ensures
        source_view(r) == source_view(*s),
    decreases *s, 2nat,
{
    match s {
        Source::Word(min, max) => Source::Word(*min, *max),
        Source::Letter => Source::Letter,
        Source::Symbol => Source::Symbol,
        Source::Digit => Source::Digit,
        Source::CharacterList(chars) => Source::CharacterList(chars.clone()),
        Source::Custom(name, items) => {
            let ci = clone_items_from(items, 0);
            proof {
                assert(items@.skip(0) =~= items@);
            }
            Source::Custom(name.clone(), ci)
        },
    }
}

/// A copy of the items from index `i` on, with the same model.
pub fn clone_items_from(v: &Vec<ExpressionItem>, i: usize) -> (r: Vec<ExpressionItem>)
    requires
        i <= v@.len(),
    ensures
        items_view(r@) == items_view(v@.skip(i as int)),
    decreases v@, v@.len() - i,
{
    if i == v.len() {
        let r: Vec<ExpressionItem> = Vec::new();
        proof {
            assert(v@.skip(i as int) =~= Seq::<ExpressionItem>::empty());
            assert(r@ =~= Seq::<ExpressionItem>::empty());
        }
        r
    } else {
        let first = clone_item(&v[i]);
        let mut rest = clone_items_from(v, i + 1);
        let mut out: Vec<ExpressionItem> = Vec::new();
        let ghost rest_view = rest@;
        out.push(first);
        out.append(&mut rest);
        proof {
            assert(out@.drop_first() =~= rest_view);
            assert(v@.skip(i as int).drop_first() =~= v@.skip(i + 1));
            assert(v@.skip(i as int)[0] == v@[i as int]);
        }
        out
    }
}

/// A copy of one item with the same model.
pub fn clone_item(it: &ExpressionItem) -> (r: ExpressionItem)
    ensures
        item_view(r) == item_view(*it),
    decreases *it, 2nat,
{
    match it {
        ExpressionItem::Block(b) => ExpressionItem::Block(clone_block(b)),
        ExpressionItem::Group(g) => ExpressionItem::Group(clone_group(g)),
    }
}

/// A copy of a block with the same model.
pub fn clone_block(b: &Block) -> (r: Block)
    ensures
        block_view(r) == block_view(*b),
    decreases *b, 2nat,
{
    Block {
        source: LabeledSource {
            source: clone_source(&b.source.source),
            label: b.source.label,
        },
        filters: clone_filters(&b.filters),
        repeat: b.repeat,
    }
}

/// A copy of a group with the same model.
pub fn clone_group(g: &Group) -> (r: Group)
    ensures
        group_view(r) == group_view(*g),
    decreases *g, 2nat,
{
    let blocks = clone_blocks_from(&g.blocks, 0);
    proof {
        assert(g.blocks@.skip(0) =~= g.blocks@);
    }
    Group { blocks, filters: clone_filters(&g.filters), repeat: g.repeat }
}

/// A copy of the blocks from index `i` on, with the same model.
pub fn clone_blocks_from(v: &Vec<Block>, i: usize) -> (r: Vec<Block>)
    requires
        i <= v@.len(),
    ensures
        blocks_view(r@) == blocks_view(v@.skip(i as int)),
    decreases v@, v@.len() - i,
{
    if i == v.len() {
        let r: Vec<Block> = Vec::new();
        proof {
            assert(v@.skip(i as int) =~= Seq::<Block>::empty());
            assert(r@ =~= Seq::<Block>::empty());
        }
        r
    } else {
        let first = clone_block(&v[i]);
        let mut rest = clone_blocks_from(v, i + 1);
        let mut out: Vec<Block> = Vec::new();
        let ghost rest_view = rest@;
        out.push(first);
        out.append(&mut rest);
        proof {
            assert(out@.drop_first() =~= rest_view);
            assert(v@.skip(i as int).drop_first() =~= v@.skip(i + 1));
            assert(v@.skip(i as int)[0] == v@[i as int]);
        }
        out
    }
}

} // verus!
