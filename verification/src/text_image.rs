//! The buffered text image: a sink that keeps one compact fragment for each
//! pixel and renders them later, as often as wanted.

use vstd::prelude::*;

use crate::color::{
    push_escape_close, spec_as_background, spec_escape_close, ANSIColor,
};
use crate::config::{Config, ConfigView};
use crate::convert::{
    convert_image_to_ascii, lemma_absorb_concat, lemma_absorb_push, spec_absorb_all,
    spec_admits_all, spec_close_bytes, spec_closing, spec_fragment, spec_fragment_colors,
    spec_instructions, spec_opening, spec_pixel_instruction, spec_row_break,
    spec_row_instructions, spec_rows_instructions,
};
use crate::pixel::PixelImage;
use crate::sympols::{lemma_sym_index_in_range, spec_glyph, MAX_RAMP_LEN};
use crate::text::push_char;
use crate::writer::{
    push_colored_text, spec_colored_text, Body, FragmentInfo, FragmentSpec, FragmentWriter,
    Instruction, SinkError,
};
use crate::Rgba;

verus! {

/// The greatest symbol index that a compact fragment can store.
pub const MAX_COMPACT_INDEX: usize = 255;

/// A compact fragment as the contracts see it.
pub struct CompactSpec {
    pub sym_index: u8,
    pub fg: Seq<char>,
}

/// A fragment that names its glyph by the glyph's index in the ramp.
#[derive(Debug, PartialEq, PartialOrd, Hash)]
#[non_exhaustive]
pub struct IndexdFragment {
    /// The index of the glyph in the ramp.
    pub sym_index: u8,
    /// The foreground color of the glyph.
    pub fg: ANSIColor,
}

impl View for IndexdFragment {
    type V = CompactSpec;

    open spec fn view(&self) -> CompactSpec {
        CompactSpec { sym_index: self.sym_index, fg: self.fg@ }
    }
}

impl Clone for IndexdFragment {
    fn clone(&self) -> (c: Self)
        ensures
            c@ == self@,
    {
        IndexdFragment { sym_index: self.sym_index, fg: self.fg.clone() }
    }
}

impl IndexdFragment {
    /// Constructs a fragment with the transparent color.
    #[must_use]
    pub fn new(sym_index: u8) -> (f: Self)
        ensures
            f@ == (CompactSpec { sym_index, fg: Seq::empty() }),
    {
        IndexdFragment { sym_index, fg: ANSIColor::transparent() }
    }

    /// Sets the foreground color.
    #[must_use]
    pub fn with_foreground(self, fg: ANSIColor) -> (f: Self)
        ensures
            f@ == (CompactSpec { sym_index: self.sym_index, fg: fg@ }),
    {
        IndexdFragment { sym_index: self.sym_index, fg }
    }

    /// Constructs a fragment with a foreground color.
    #[must_use]
    pub fn new_with_foreground(sym_index: u8, fg: ANSIColor) -> (f: Self)
        ensures
            f@ == (CompactSpec { sym_index, fg: fg@ }),
    {
        IndexdFragment { sym_index, fg }
    }
}

impl From<FragmentInfo> for IndexdFragment {
    /// Keeps the low byte of the symbol index, and the color.
    fn from(v: FragmentInfo) -> (f: Self)
        ensures
            f@ == (CompactSpec { sym_index: (v.sym_index % 256) as u8, fg: v.fg@ }),
    {
        IndexdFragment { sym_index: (v.sym_index % 256) as u8, fg: v.fg }
    }
}

impl vstd::std_specs::convert::FromSpecImpl<FragmentInfo> for IndexdFragment {
    open spec fn obeys_from_spec() -> bool {
        true
    }

    open spec fn from_spec(v: FragmentInfo) -> Self {
        IndexdFragment { sym_index: (v.sym_index % 256) as u8, fg: v.fg }
    }
}

/// A glyph and its color, as the contracts see them.
pub struct GlyphSpec {
    pub ch: char,
    pub fg: Seq<char>,
}

/// One cell of the terminal: a glyph and its foreground color.
#[derive(Debug, PartialEq, PartialOrd, Hash)]
pub struct Fragment {
    ch: char,
    fg: ANSIColor,
}

impl View for Fragment {
    type V = GlyphSpec;

    closed spec fn view(&self) -> GlyphSpec {
        GlyphSpec { ch: self.ch, fg: self.fg@ }
    }
}

impl Clone for Fragment {
    fn clone(&self) -> (c: Self)
        ensures
            c@ == self@,
    {
        Fragment { ch: self.ch, fg: self.fg.clone() }
    }
}

impl Fragment {
    /// Constructs a fragment with the transparent color.
    pub fn new(ch: char) -> (f: Self)
        ensures
            f@ == (GlyphSpec { ch, fg: Seq::empty() }),
    {
        Fragment { ch, fg: ANSIColor::transparent() }
    }

    /// The glyph.
    pub fn sym(&self) -> (c: char)
        ensures
            c == self@.ch,
    {
        self.ch
    }

    /// Sets the foreground color.
    #[must_use]
    pub fn with_foreground(self, fg: ANSIColor) -> (f: Self)
        ensures
            f@ == (GlyphSpec { ch: self@.ch, fg: fg@ }),
    {
        Fragment { ch: self.ch, fg }
    }

    /// Constructs a fragment with a foreground color.
    pub fn new_with_foueground(ch: char, fg: ANSIColor) -> (f: Self)
        ensures
            f@ == (GlyphSpec { ch, fg: fg@ }),
    {
        Fragment { ch, fg }
    }

    /// The foreground color.
    pub fn foreground(&self) -> (c: &ANSIColor)
        ensures
            c@ == self@.fg,
    {
        &self.fg
    }
}

impl From<FragmentInfo> for Fragment {
    /// Keeps the glyph and the color.
    fn from(v: FragmentInfo) -> (f: Self)
        ensures
            f@ == (GlyphSpec { ch: v.sym, fg: v.fg@ }),
    {
        Fragment { ch: v.sym, fg: v.fg }
    }
}

impl vstd::std_specs::convert::FromSpecImpl<FragmentInfo> for Fragment {
    open spec fn obeys_from_spec() -> bool {
        true
    }

    closed spec fn from_spec(v: FragmentInfo) -> Self {
        Fragment { ch: v.sym, fg: v.fg }
    }
}

/// A buffered text image as the contracts see it.
pub struct TextImageView {
    pub config: ConfigView,
    pub row_len: usize,
    pub fragments: Seq<CompactSpec>,
}

/// The views of a run of compact fragments.
pub open spec fn spec_compact_views(fragments: Seq<IndexdFragment>) -> Seq<CompactSpec> {
    fragments.map_values(|f: IndexdFragment| f@)
}

/// Whether a ramp has a glyph for the symbol index `i`: an empty ramp has
/// the blank glyph for every index.
pub open spec fn spec_in_ramp(ramp: Seq<char>, i: int) -> bool {
    ramp.len() == 0 || 0 <= i < ramp.len()
}

/// The text of one cell: its glyph, wrapped in the colors of the fragment
/// when colors are enabled.
pub open spec fn spec_cell_text(cfg: ConfigView, f: CompactSpec) -> Seq<char> {
    let sym = spec_glyph(cfg.sympols, f.sym_index as int);
    if cfg.use_colors() {
        let colors = spec_fragment_colors(cfg, f.fg);
        spec_colored_text(sym, colors.0, colors.1)
    } else {
        seq![sym]
    }
}

/// The text of a run of cells, without row breaks.
pub open spec fn spec_cells_text(cfg: ConfigView, fragments: Seq<CompactSpec>) -> Seq<char>
    decreases fragments.len(),
{
    if fragments.len() == 0 {
        Seq::empty()
    } else {
        spec_cells_text(cfg, fragments.drop_last()) + spec_cell_text(cfg, fragments.last())
    }
}

/// The text of the cells in rows of `row_len`: a line feed follows every
/// complete row. With `row_len == 0` there are no rows to complete.
pub open spec fn spec_rows_text(cfg: ConfigView, row_len: nat, fragments: Seq<CompactSpec>) -> Seq<
    char,
>
    decreases fragments.len(),
{
    if row_len == 0 || fragments.len() < row_len {
        spec_cells_text(cfg, fragments)
    } else {
        spec_cells_text(cfg, fragments.take(row_len as int)) + seq!['\n'] + spec_rows_text(
            cfg,
            row_len,
            fragments.skip(row_len as int),
        )
    }
}

/// What opens the rendered text: the background escape, if the background is
/// announced once.
pub open spec fn spec_opening_text(cfg: ConfigView) -> Seq<char> {
    if cfg.one_shot_background() {
        spec_as_background(cfg.background->0)
    } else {
        Seq::empty()
    }
}

/// What closes the rendered text: the reset, if the background was announced.
pub open spec fn spec_closing_text(cfg: ConfigView) -> Seq<char> {
    if cfg.one_shot_background() {
        spec_escape_close()
    } else {
        Seq::empty()
    }
}

impl TextImageView {
    /// Whether each fragment's symbol index has a glyph in the ramp.
    pub open spec fn wf(self) -> bool {
        forall|i: int|
            0 <= i < self.fragments.len() ==> spec_in_ramp(
                self.config.sympols,
                (#[trigger] self.fragments[i]).sym_index as int,
            )
    }

    /// The rendered text of the image.
    pub open spec fn text(self) -> Seq<char> {
        spec_opening_text(self.config) + spec_rows_text(
            self.config,
            self.row_len as nat,
            self.fragments,
        ) + spec_closing_text(self.config)
    }
}

/// The text image: a configuration, the length of a row, and one compact
/// fragment for each pixel, row after row.
#[derive(Debug, PartialEq, Hash)]
pub struct TextImage {
    /// The configuration.
    pub config: Config,
    fragments: Vec<IndexdFragment>,
    /// The number of columns.
    pub row_len: usize,
}

impl View for TextImage {
    type V = TextImageView;

    closed spec fn view(&self) -> TextImageView {
        TextImageView {
            config: self.config@,
            row_len: self.row_len,
            fragments: spec_compact_views(self.fragments@),
        }
    }
}

impl Clone for TextImage {
    fn clone(&self) -> (c: Self)
        ensures
            c@ == self@,
    {
        let mut fragments: Vec<IndexdFragment> = Vec::new();
        let n = self.fragments.len();
        let mut i: usize = 0;
        while i < n
            invariant
                n == self.fragments.len(),
                i <= n,
                spec_compact_views(fragments@) == spec_compact_views(self.fragments@).take(
                    i as int,
                ),
            decreases n - i,
        {
            let ghost before = fragments@;
            let fragment = self.fragments[i].clone();
            fragments.push(fragment);
            assert(spec_compact_views(fragments@) =~= spec_compact_views(before).push(
                self.fragments@[i as int]@,
            ));
            assert(spec_compact_views(self.fragments@).take(i + 1) =~= spec_compact_views(
                self.fragments@,
            ).take(i as int).push(self.fragments@[i as int]@));
            i += 1;
        }
        assert(spec_compact_views(fragments@) =~= spec_compact_views(self.fragments@));
        TextImage { config: self.config.clone(), fragments, row_len: self.row_len }
    }
}

/// Appends the text of one cell to `text`.
fn push_cell(config: &Config, fragment: &IndexdFragment, text: &mut String)
    requires
        spec_in_ramp(config.sympols@, fragment.sym_index as int),
    ensures
        final(text)@ == old(text)@ + spec_cell_text(config@, fragment@),
{
    let sym = config.sympols.get(fragment.sym_index as usize);
    if config.use_colors() {
        if config.reversed() {
            push_colored_text(text, sym, Some(&fragment.fg), config.background.as_ref());
        } else {
            push_colored_text(text, sym, config.background.as_ref(), Some(&fragment.fg));
        }
    } else {
        push_char(text, sym);
        assert(text@ =~= old(text)@ + seq![sym]);
    }
}

impl TextImage {
    /// Constructs an empty image with rows of `w` fragments, for an image of
    /// `w` by `h` pixels.
    pub fn new(cfg: Config, w: u32, h: u32) -> (t: Self)
        ensures
            t@ == (TextImageView {
                config: cfg@,
                row_len: w as usize,
                fragments: Seq::empty(),
            }),
    {
        let mut fragments: Vec<IndexdFragment> = Vec::new();
        assert(w * h <= u64::MAX) by (nonlinear_arith)
            requires
                w <= u32::MAX,
                h <= u32::MAX,
        ;
        let cells: u64 = w as u64 * h as u64;
        if cells <= usize::MAX as u64 {
            // room for one fragment for each pixel, if the allocator has it
            let _ = fragments.try_reserve(cells as usize);
        }
        let t = TextImage { config: cfg, fragments, row_len: w as usize };
        assert(t@.fragments =~= Seq::empty());
        t
    }

    /// The configuration.
    pub fn config(&self) -> (config: &Config)
        ensures
            config@ == self@.config,
    {
        &self.config
    }

    /// The number of fragments in a row.
    pub fn row_len(&self) -> (n: usize)
        ensures
            n == self@.row_len,
    {
        self.row_len
    }

    /// The number of fragments.
    pub fn len(&self) -> (n: usize)
        ensures
            n == self@.fragments.len(),
    {
        self.fragments.len()
    }

    /// Whether the image holds no fragment.
    pub fn is_empty(&self) -> (b: bool)
        ensures
            b == (self@.fragments.len() == 0),
    {
        self.len() == 0
    }

    /// The compact fragment at `idx` as it is stored, or `None` if `idx` is
    /// out of range.
    pub fn compact(&self, idx: usize) -> (r: Option<IndexdFragment>)
        ensures
            r is Some <==> idx < self@.fragments.len(),
            r matches Some(f) ==> f@ == self@.fragments[idx as int],
    {
        if idx < self.fragments.len() {
            Some(self.fragments[idx].clone())
        } else {
            None
        }
    }

    /// The fragment at `idx`, with its glyph looked up in the ramp.
    pub fn get_unchecked(&self, idx: usize) -> (f: Fragment)
        requires
            idx < self@.fragments.len(),
            spec_in_ramp(self@.config.sympols, self@.fragments[idx as int].sym_index as int),
        ensures
            f@ == (GlyphSpec {
                ch: spec_glyph(
                    self@.config.sympols,
                    self@.fragments[idx as int].sym_index as int,
                ),
                fg: self@.fragments[idx as int].fg,
            }),
    {
        let fragment = &self.fragments[idx];
        Fragment {
            ch: self.config.sympols.get(fragment.sym_index as usize),
            fg: fragment.fg.clone(),
        }
    }

    /// The fragment at `idx`, or `None` if `idx` is out of range.
    pub fn get(&self, idx: usize) -> (r: Option<Fragment>)
        requires
            idx < self@.fragments.len() ==> spec_in_ramp(
                self@.config.sympols,
                self@.fragments[idx as int].sym_index as int,
            ),
        ensures
            r is Some <==> idx < self@.fragments.len(),
            r matches Some(f) ==> f@ == (GlyphSpec {
                ch: spec_glyph(
                    self@.config.sympols,
                    self@.fragments[idx as int].sym_index as int,
                ),
                fg: self@.fragments[idx as int].fg,
            }),
    {
        if idx < self.len() {
            return Some(self.get_unchecked(idx));
        }
        None
    }

    /// The flat index `y * row_len + x` of column `x` in row `y`, if it is the
    /// index of a fragment or the place behind the last one.
    fn flat_index(&self, x: u32, y: u32) -> (r: Option<usize>)
        ensures
            r is Some <==> y * self@.row_len + x <= self@.fragments.len(),
            r matches Some(i) ==> i == y * self@.row_len + x,
    {
        let n = self.fragments.len();
        if self.row_len != 0 && y as usize > n / self.row_len {
            assert(y * self.row_len > n) by (nonlinear_arith)
                requires
                    self.row_len > 0,
                    y > n as int / self.row_len as int,
            ;
            return None;
        }
        assert(y * self.row_len <= n) by (nonlinear_arith)
            requires
                self.row_len == 0 || y <= n as int / self.row_len as int,
        ;
        let base: usize = y as usize * self.row_len;
        if x as usize > n - base {
            return None;
        }
        Some(base + x as usize)
    }

    /// The fragment in column `x` of row `y`, at the flat index
    /// `y * row_len + x`, or `None` if that is out of range.
    pub fn fragment_at(&self, x: u32, y: u32) -> (r: Option<Fragment>)
        requires
            y * self@.row_len + x < self@.fragments.len() ==> spec_in_ramp(
                self@.config.sympols,
                self@.fragments[y * self@.row_len + x].sym_index as int,
            ),
        ensures
            r is Some <==> y * self@.row_len + x < self@.fragments.len(),
            r matches Some(f) ==> f@ == (GlyphSpec {
                ch: spec_glyph(
                    self@.config.sympols,
                    self@.fragments[y * self@.row_len + x].sym_index as int,
                ),
                fg: self@.fragments[y * self@.row_len + x].fg,
            }),
    {
        match self.flat_index(x, y) {
            Some(idx) => self.get(idx),
            None => None,
        }
    }

    /// The fragment in column `x` of row `y`, at the flat index
    /// `y * row_len + x`.
    pub fn fragment_at_unchecked(&self, x: u32, y: u32) -> (f: Fragment)
        requires
            y * self@.row_len + x < self@.fragments.len(),
            spec_in_ramp(
                self@.config.sympols,
                self@.fragments[y * self@.row_len + x].sym_index as int,
            ),
        ensures
            f@ == (GlyphSpec {
                ch: spec_glyph(
                    self@.config.sympols,
                    self@.fragments[y * self@.row_len + x].sym_index as int,
                ),
                fg: self@.fragments[y * self@.row_len + x].fg,
            }),
    {
        let row_len = self.row_len;
        assert(0 <= y * row_len) by (nonlinear_arith);
        assert(y * row_len + x < self.fragments.len());
        self.get_unchecked(y as usize * row_len + x as usize)
    }

    /// Inserts a fragment at `idx`; the fragments from there on move up by one.
    pub fn insert(&mut self, idx: usize, fragment: IndexdFragment)
        requires
            idx <= old(self)@.fragments.len(),
        ensures
            final(self)@ == (TextImageView {
                fragments: old(self)@.fragments.insert(idx as int, fragment@),
                ..old(self)@
            }),
    {
        self.fragments.insert(idx, fragment);
        assert(self@.fragments =~= old(self)@.fragments.insert(idx as int, fragment@));
    }

    /// Inserts a fragment for column `x` of row `y`, at the flat index
    /// `y * row_len + x`.
    pub fn put(&mut self, x: u32, y: u32, fragment: IndexdFragment)
        requires
            y * old(self)@.row_len + x <= old(self)@.fragments.len(),
        ensures
            final(self)@ == (TextImageView {
                fragments: old(self)@.fragments.insert(y * old(self)@.row_len + x, fragment@),
                ..old(self)@
            }),
    {
        let row_len = self.row_len;
        assert(0 <= y * row_len) by (nonlinear_arith);
        assert(y * row_len + x <= self.fragments.len());
        self.insert(y as usize * row_len + x as usize, fragment);
    }
}

impl TextImage {
    /// Whether the image can be rendered: each fragment's symbol index has a
    /// glyph in the ramp.
    pub fn is_well_formed(&self) -> (b: bool)
        ensures
            b == self@.wf(),
    {
        let ramp = self.config.sympols.len();
        if ramp == 0 {
            return true;
        }
        let n = self.fragments.len();
        let mut i: usize = 0;
        while i < n
            invariant
                n == self@.fragments.len(),
                ramp == self@.config.sympols.len(),
                ramp > 0,
                i <= n,
                forall|j: int|
                    0 <= j < i ==> spec_in_ramp(
                        self@.config.sympols,
                        (#[trigger] self@.fragments[j]).sym_index as int,
                    ),
            decreases n - i,
        {
            if self.fragments[i].sym_index as usize >= ramp {
                assert(!spec_in_ramp(
                    self@.config.sympols,
                    self@.fragments[i as int].sym_index as int,
                ));
                return false;
            }
            i += 1;
        }
        true
    }

    /// Renders the image: the background escape if the background is
    /// announced once, the cells with a line feed after every complete row,
    /// and the closing reset if the background was announced.
    ///
    /// The image is left as it is, so every rendering gives the same text.
    pub fn to_string(&self) -> (s: String)
        requires
            self@.wf(),
        ensures
            s@ == self@.text(),
    {
        let ghost cfg = self@.config;
        let ghost frags = self@.fragments;
        let ghost width = self.row_len as nat;
        let mut text = String::new();
        let one_shot = !self.config.reversed() && self.config.background.is_some();
        if one_shot {
            match &self.config.background {
                Some(bc) => bc.push_background(&mut text),
                None => {},
            }
        }
        let ghost total = spec_opening_text(cfg) + spec_rows_text(cfg, width, frags);
        let n = self.fragments.len();
        let mut k: usize = 0;
        let mut col: usize = 0;
        let ghost mut row_start: int = 0;
        let ghost mut done: Seq<char> = text@;
        proof {
            lemma_render_start(cfg, width, frags, text@);
        }
        while k < n
            invariant
                cfg == self@.config,
                frags == self@.fragments,
                width == self.row_len,
                self@.wf(),
                n == frags.len(),
                k <= n,
                0 <= row_start <= k,
                col == k - row_start,
                width > 0 ==> col < width,
                total == done + spec_tail_text(cfg, width, frags, row_start),
                text@ == done + spec_run_text(cfg, frags, row_start, k as int),
            decreases n - k,
        {
            let ghost before = text@;
            assert(spec_in_ramp(cfg.sympols, frags[k as int].sym_index as int));
            push_cell(&self.config, &self.fragments[k], &mut text);
            proof {
                lemma_render_cell(cfg, frags, done, row_start, k as int, before, text@);
            }
            k += 1;
            col += 1;
            if col == self.row_len {
                let ghost row = text@;
                push_char(&mut text, '\n');
                proof {
                    lemma_render_row(cfg, width, frags, done, row_start, k as int, row, text@);
                    done = text@;
                    row_start = k as int;
                }
                col = 0;
            }
        }
        proof {
            lemma_render_end(cfg, width, frags, done, row_start, text@);
        }
        if one_shot {
            push_escape_close(&mut text);
        }
        text
    }
}

/// The text from the fragment at `from` on, in rows of `width`.
#[verifier::opaque]
closed spec fn spec_tail_text(
    cfg: ConfigView,
    width: nat,
    frags: Seq<CompactSpec>,
    from: int,
) -> Seq<char> {
    spec_rows_text(cfg, width, frags.skip(from))
}

/// The text of the cells from `from` up to `to`, without row breaks.
#[verifier::opaque]
closed spec fn spec_run_text(cfg: ConfigView, frags: Seq<CompactSpec>, from: int, to: int) -> Seq<
    char,
> {
    spec_cells_text(cfg, frags.subrange(from, to))
}

/// Before the first cell all the rows are still to come.
proof fn lemma_render_start(cfg: ConfigView, width: nat, frags: Seq<CompactSpec>, text: Seq<char>)
    requires
        text == spec_opening_text(cfg),
    ensures
        spec_opening_text(cfg) + spec_rows_text(cfg, width, frags) == text + spec_tail_text(
            cfg,
            width,
            frags,
            0,
        ),
        text == text + spec_run_text(cfg, frags, 0, 0),
{
    reveal(spec_tail_text);
    reveal(spec_run_text);
    assert(frags.skip(0) =~= frags);
    assert(frags.subrange(0, 0) =~= Seq::<CompactSpec>::empty());
    assert(text + spec_cells_text(cfg, frags.subrange(0, 0)) =~= text);
}

/// One more cell behind the cells of the row so far.
proof fn lemma_render_cell(
    cfg: ConfigView,
    frags: Seq<CompactSpec>,
    done: Seq<char>,
    from: int,
    k: int,
    before: Seq<char>,
    after: Seq<char>,
)
    requires
        0 <= from <= k < frags.len(),
        before == done + spec_run_text(cfg, frags, from, k),
        after == before + spec_cell_text(cfg, frags[k]),
    ensures
        after == done + spec_run_text(cfg, frags, from, k + 1),
{
    reveal(spec_run_text);
    let row = frags.subrange(from, k + 1);
    assert(row.drop_last() =~= frags.subrange(from, k));
    assert(row.last() == frags[k]);
    assert(after =~= done + spec_cells_text(cfg, row));
}

/// A line feed behind a complete row: what is rendered is done, and the
/// text from the next row on is still to come.
proof fn lemma_render_row(
    cfg: ConfigView,
    width: nat,
    frags: Seq<CompactSpec>,
    done: Seq<char>,
    from: int,
    to: int,
    row: Seq<char>,
    after: Seq<char>,
)
    requires
        0 <= from,
        to <= frags.len(),
        width > 0,
        to - from == width,
        row == done + spec_run_text(cfg, frags, from, to),
        after == row.push('\n'),
    ensures
        done + spec_tail_text(cfg, width, frags, from) == after + spec_tail_text(
            cfg,
            width,
            frags,
            to,
        ),
        after == after + spec_run_text(cfg, frags, to, to),
{
    reveal(spec_tail_text);
    reveal(spec_run_text);
    let rest = frags.skip(from);
    assert(rest.take(width as int) =~= frags.subrange(from, to));
    assert(rest.skip(width as int) =~= frags.skip(to));
    assert(frags.subrange(to, to) =~= Seq::<CompactSpec>::empty());
    assert(after + spec_cells_text(cfg, frags.subrange(to, to)) =~= after);
    assert(done + spec_rows_text(cfg, width, rest) =~= after + spec_rows_text(
        cfg,
        width,
        frags.skip(to),
    ));
}

/// Behind the last fragment, in a row that is not complete, nothing is
/// still to come.
proof fn lemma_render_end(
    cfg: ConfigView,
    width: nat,
    frags: Seq<CompactSpec>,
    done: Seq<char>,
    from: int,
    text: Seq<char>,
)
    requires
        0 <= from <= frags.len(),
        width == 0 || frags.len() - from < width,
        text == done + spec_run_text(cfg, frags, from, frags.len() as int),
    ensures
        text == done + spec_tail_text(cfg, width, frags, from),
{
    reveal(spec_tail_text);
    reveal(spec_run_text);
    assert(frags.skip(from) =~= frags.subrange(from, frags.len() as int));
}

/// A text image keeps the fragments and drops what else it is told: the
/// background, which it takes from its own configuration when it is
/// rendered, and raw bytes. It takes a fragment if the symbol index fits
/// into a byte; one that does not fit it refuses, and stays as it is.
impl FragmentWriter for TextImage {
    open spec fn absorbed(held: TextImageView, ins: Instruction) -> TextImageView {
        match ins {
            Instruction::Fragment { info } => TextImageView {
                fragments: held.fragments.push(spec_compact(info)),
                ..held
            },
            Instruction::ColoredFragment { info, bc, fc } => TextImageView {
                fragments: held.fragments.push(spec_compact(info)),
                ..held
            },
            _ => held,
        }
    }

    open spec fn admits(ins: Instruction) -> bool {
        match ins {
            Instruction::Fragment { info } => info.sym_index <= MAX_COMPACT_INDEX,
            Instruction::ColoredFragment { info, bc, fc } => info.sym_index <= MAX_COMPACT_INDEX,
            _ => true,
        }
    }

    open spec fn refuses(
        held: TextImageView,
        ins: Instruction,
        error: SinkError,
        left: TextImageView,
    ) -> bool {
        &&& left == held
        &&& match ins {
            Instruction::Fragment { info } => info.sym_index > MAX_COMPACT_INDEX && error
                == SinkError::SymbolIndex(info.sym_index),
            Instruction::ColoredFragment { info, bc, fc } => info.sym_index > MAX_COMPACT_INDEX
                && error == SinkError::SymbolIndex(info.sym_index),
            _ => false,
        }
    }

    open spec fn closes(color: Body) -> bool {
        true
    }

    fn background(&mut self, bc: &ANSIColor) -> (r: Result<bool, SinkError>) {
        Ok(true)
    }

    fn write_fragment(&mut self, info: FragmentInfo) -> (r: Result<(), SinkError>)
        ensures
            r is Err <==> info.sym_index > MAX_COMPACT_INDEX,
            r matches Err(e) ==> e == SinkError::SymbolIndex(info.sym_index) && final(self)@ == old(
                self,
            )@,
    {
        self.push_compact(info)
    }

    fn write_colored_fragment(
        &mut self,
        info: FragmentInfo,
        bc: Option<&ANSIColor>,
        fc: Option<&ANSIColor>,
    ) -> (r: Result<(), SinkError>)
        ensures
            r is Err <==> info.sym_index > MAX_COMPACT_INDEX,
            r matches Err(e) ==> e == SinkError::SymbolIndex(info.sym_index) && final(self)@ == old(
                self,
            )@,
    {
        self.push_compact(info)
    }

    fn write_bytes(&mut self, bytes: &[u8]) -> (r: Result<(), SinkError>) {
        Ok(())
    }
}

/// The compact form of a fragment whose symbol index fits into a byte.
pub open spec fn spec_compact(info: FragmentSpec) -> CompactSpec {
    CompactSpec { sym_index: info.sym_index as u8, fg: info.fg }
}

impl TextImage {
    /// Appends the compact form of `info`, unless its symbol index does not
    /// fit into a byte.
    fn push_compact(&mut self, info: FragmentInfo) -> (r: Result<(), SinkError>)
        ensures
            r is Err <==> info.sym_index > MAX_COMPACT_INDEX,
            r matches Err(e) ==> e == SinkError::SymbolIndex(info.sym_index) && final(self)@ == old(
                self,
            )@,
            r is Ok ==> final(self)@ == (TextImageView {
                fragments: old(self)@.fragments.push(spec_compact(info@)),
                ..old(self)@
            }),
    {
        if info.sym_index > MAX_COMPACT_INDEX {
            return Err(SinkError::SymbolIndex(info.sym_index));
        }
        let fragment = IndexdFragment { sym_index: info.sym_index as u8, fg: info.fg };
        self.fragments.push(fragment);
        assert(self@.fragments =~= old(self)@.fragments.push(spec_compact(info@)));
        Ok(())
    }
}

/// The compact fragments of the first `n` pixels of row `y`.
pub open spec fn spec_row_fragments<I: PixelImage>(
    cfg: ConfigView,
    image: &I,
    y: u32,
    n: nat,
) -> Seq<CompactSpec>
    decreases n,
{
    if n == 0 {
        Seq::empty()
    } else {
        spec_row_fragments(cfg, image, y, (n - 1) as nat).push(
            spec_compact(spec_fragment(cfg, image.spec_pixel((n - 1) as u32, y))),
        )
    }
}

/// The compact fragments of the first `n` rows, row after row.
pub open spec fn spec_image_fragments<I: PixelImage>(cfg: ConfigView, image: &I, n: nat) -> Seq<
    CompactSpec,
>
    decreases n,
{
    if n == 0 {
        Seq::empty()
    } else {
        spec_image_fragments(cfg, image, (n - 1) as nat) + spec_row_fragments(
            cfg,
            image,
            (n - 1) as u32,
            image.spec_dimensions().0 as nat,
        )
    }
}

/// The fragment of the pixel in column `x` of a row is at `x` among the
/// fragments of the row.
proof fn lemma_row_fragment<I: PixelImage>(cfg: ConfigView, image: &I, y: u32, n: nat, x: u32)
    requires
        x < n,
    ensures
        spec_row_fragments(cfg, image, y, n).len() == n,
        spec_row_fragments(cfg, image, y, n)[x as int] == spec_compact(
            spec_fragment(cfg, image.spec_pixel(x, y)),
        ),
    decreases n,
{
    lemma_row_fragments_len(cfg, image, y, n);
    lemma_row_fragments_len(cfg, image, y, (n - 1) as nat);
    if x < n - 1 {
        lemma_row_fragment(cfg, image, y, (n - 1) as nat, x);
    }
}

/// The first `n` pixels of a row give `n` fragments.
proof fn lemma_row_fragments_len<I: PixelImage>(cfg: ConfigView, image: &I, y: u32, n: nat)
    ensures
        spec_row_fragments(cfg, image, y, n).len() == n,
    decreases n,
{
    if n > 0 {
        lemma_row_fragments_len(cfg, image, y, (n - 1) as nat);
    }
}

/// The first `n` rows give `n` times the width of fragments.
proof fn lemma_image_fragments_len<I: PixelImage>(cfg: ConfigView, image: &I, n: nat)
    ensures
        spec_image_fragments(cfg, image, n).len() == n * image.spec_dimensions().0,
    decreases n,
{
    let w = image.spec_dimensions().0 as nat;
    if n > 0 {
        lemma_image_fragments_len(cfg, image, (n - 1) as nat);
        lemma_row_fragments_len(cfg, image, (n - 1) as u32, w);
        assert(n * w == (n - 1) * w + w) by (nonlinear_arith)
            requires
                n > 0,
        ;
    } else {
        assert(0 * w == 0);
    }
}

/// Row-major order: among the fragments of the first `n` rows, the fragment
/// of the pixel in column `x` of row `y` is at `y * width + x`.
pub proof fn lemma_fragment_of_pixel<I: PixelImage>(
    cfg: ConfigView,
    image: &I,
    n: nat,
    x: u32,
    y: u32,
)
    requires
        x < image.spec_dimensions().0,
        y < n,
    ensures
        0 <= y * image.spec_dimensions().0 + x < spec_image_fragments(cfg, image, n).len(),
        spec_image_fragments(cfg, image, n)[y * image.spec_dimensions().0 + x] == spec_compact(
            spec_fragment(cfg, image.spec_pixel(x, y)),
        ),
    decreases n,
{
    let w = image.spec_dimensions().0 as nat;
    let m = (n - 1) as nat;
    lemma_image_fragments_len(cfg, image, n);
    lemma_image_fragments_len(cfg, image, m);
    lemma_row_fragments_len(cfg, image, m as u32, w);
    assert(n * w == m * w + w) by (nonlinear_arith)
        requires
            n == m + 1,
    ;
    if y < m {
        lemma_fragment_of_pixel(cfg, image, m, x, y);
    } else {
        lemma_row_fragment(cfg, image, y, w, x);
        assert(y * w == m * w);
    }
}

/// In the text image of `image` the fragment of the pixel in column `x` of
/// row `y` is at `y * row_len + x`, where coordinate access looks for it.
pub proof fn lemma_text_image_at<I: PixelImage>(cfg: ConfigView, image: &I, x: u32, y: u32)
    requires
        x < image.spec_dimensions().0,
        y < image.spec_dimensions().1,
    ensures
        0 <= y * spec_text_image(cfg, image).row_len + x < spec_text_image(
            cfg,
            image,
        ).fragments.len(),
        spec_text_image(cfg, image).fragments[y * spec_text_image(cfg, image).row_len + x]
            == spec_compact(spec_fragment(cfg, image.spec_pixel(x, y))),
{
    lemma_fragment_of_pixel(cfg, image, image.spec_dimensions().1 as nat, x, y);
}

/// The text image of `image` under `cfg`: one fragment for each pixel, in
/// rows as long as the image is wide.
pub open spec fn spec_text_image<I: PixelImage>(cfg: ConfigView, image: &I) -> TextImageView {
    TextImageView {
        config: cfg,
        row_len: image.spec_dimensions().0 as usize,
        fragments: spec_image_fragments(cfg, image, image.spec_dimensions().1 as nat),
    }
}

/// A text image that took a pixel's instruction holds one more fragment.
proof fn lemma_pixel_taken(cfg: ConfigView, pixel: Rgba, held: TextImageView)
    ensures
        TextImage::absorbed(held, spec_pixel_instruction(cfg, pixel)) == (TextImageView {
            fragments: held.fragments.push(spec_compact(spec_fragment(cfg, pixel))),
            ..held
        }),
{
}

/// A text image that took the start of a row holds its fragments behind
/// those it held.
proof fn lemma_row_taken<I: PixelImage>(
    cfg: ConfigView,
    image: &I,
    y: u32,
    n: nat,
    held: TextImageView,
)
    ensures
        spec_absorb_all::<TextImage>(held, spec_row_instructions(cfg, image, y, n)) == (
        TextImageView {
            fragments: held.fragments + spec_row_fragments(cfg, image, y, n),
            ..held
        }),
    decreases n,
{
    if n == 0 {
        assert(held.fragments + Seq::<CompactSpec>::empty() =~= held.fragments);
    } else {
        let m = (n - 1) as nat;
        let pixel = image.spec_pixel(m as u32, y);
        lemma_row_taken(cfg, image, y, m, held);
        lemma_absorb_push::<TextImage>(
            held,
            spec_row_instructions(cfg, image, y, m),
            spec_pixel_instruction(cfg, pixel),
        );
        lemma_pixel_taken(
            cfg,
            pixel,
            TextImageView {
                fragments: held.fragments + spec_row_fragments(cfg, image, y, m),
                ..held
            },
        );
        assert((held.fragments + spec_row_fragments(cfg, image, y, m)).push(
            spec_compact(spec_fragment(cfg, pixel)),
        ) =~= held.fragments + spec_row_fragments(cfg, image, y, n));
    }
}

/// A text image that took the first `n` rows holds their fragments behind
/// those it held.
proof fn lemma_rows_taken<I: PixelImage>(
    cfg: ConfigView,
    image: &I,
    n: nat,
    held: TextImageView,
)
    ensures
        spec_absorb_all::<TextImage>(held, spec_rows_instructions(cfg, image, n)) == (
        TextImageView {
            fragments: held.fragments + spec_image_fragments(cfg, image, n),
            ..held
        }),
    decreases n,
{
    if n == 0 {
        assert(held.fragments + Seq::<CompactSpec>::empty() =~= held.fragments);
    } else {
        let m = (n - 1) as nat;
        let w = image.spec_dimensions().0 as nat;
        let before = spec_rows_instructions(cfg, image, m);
        let row = spec_row_instructions(cfg, image, m as u32, w);
        let row_break = Instruction::Bytes { bytes: spec_row_break() };
        let held_before = TextImageView {
            fragments: held.fragments + spec_image_fragments(cfg, image, m),
            ..held
        };
        lemma_rows_taken(cfg, image, m, held);
        lemma_absorb_concat::<TextImage>(held, before, row.push(row_break));
        lemma_absorb_push::<TextImage>(held_before, row, row_break);
        lemma_row_taken(cfg, image, m as u32, w, held_before);
        assert(held_before.fragments + spec_row_fragments(cfg, image, m as u32, w)
            =~= held.fragments + spec_image_fragments(cfg, image, n));
    }
}

/// A text image that took a whole conversion holds, behind the fragments it
/// held before, one fragment for each pixel, row after row; its
/// configuration and its row length are as they were.
pub proof fn lemma_buffered_fragments<I: PixelImage>(
    cfg: ConfigView,
    image: &I,
    held: TextImageView,
)
    ensures
        spec_absorb_all::<TextImage>(held, spec_instructions::<I, TextImage>(cfg, image)) == (
        TextImageView {
            fragments: held.fragments + spec_image_fragments(
                cfg,
                image,
                image.spec_dimensions().1 as nat,
            ),
            ..held
        }),
{
    let h = image.spec_dimensions().1 as nat;
    let opening = spec_opening(cfg);
    let rows = spec_rows_instructions(cfg, image, h);
    let closing = spec_closing::<TextImage>(cfg);
    lemma_absorb_concat::<TextImage>(held, opening + rows, closing);
    lemma_absorb_concat::<TextImage>(held, opening, rows);
    assert(spec_absorb_all::<TextImage>(held, opening) == held) by {
        if cfg.one_shot_background() {
            lemma_absorb_push::<TextImage>(
                held,
                Seq::empty(),
                Instruction::Background { color: cfg.background->0 },
            );
            assert(opening =~= Seq::<Instruction>::empty().push(
                Instruction::Background { color: cfg.background->0 },
            ));
        }
    }
    lemma_rows_taken(cfg, image, h, held);
    let held_rows = TextImageView {
        fragments: held.fragments + spec_image_fragments(cfg, image, h),
        ..held
    };
    assert(spec_absorb_all::<TextImage>(held_rows, closing) == held_rows) by {
        if cfg.one_shot_background() {
            lemma_absorb_push::<TextImage>(
                held_rows,
                Seq::empty(),
                Instruction::Bytes { bytes: spec_close_bytes() },
            );
            assert(closing =~= Seq::<Instruction>::empty().push(
                Instruction::Bytes { bytes: spec_close_bytes() },
            ));
        }
    }
}

/// Every fragment of a row names a glyph of the ramp.
proof fn lemma_row_fragments_in_ramp<I: PixelImage>(cfg: ConfigView, image: &I, y: u32, n: nat)
    requires
        cfg.sympols.len() <= MAX_RAMP_LEN,
    ensures
        spec_row_fragments(cfg, image, y, n).len() == n,
        forall|i: int|
            0 <= i < n ==> spec_in_ramp(
                cfg.sympols,
                (#[trigger] spec_row_fragments(cfg, image, y, n)[i]).sym_index as int,
            ),
    decreases n,
{
    if n > 0 {
        lemma_row_fragments_in_ramp(cfg, image, y, (n - 1) as nat);
        if cfg.sympols.len() > 0 {
            lemma_sym_index_in_range(
                cfg.sympols.len() as int,
                image.spec_pixel((n - 1) as u32, y),
            );
        }
    }
}

/// Every fragment of the first `n` rows names a glyph of the ramp, and
/// there are `n` times the width of them.
pub proof fn lemma_image_fragments_in_ramp<I: PixelImage>(cfg: ConfigView, image: &I, n: nat)
    requires
        cfg.sympols.len() <= MAX_RAMP_LEN,
    ensures
        spec_image_fragments(cfg, image, n).len() == n * image.spec_dimensions().0,
        forall|i: int|
            0 <= i < spec_image_fragments(cfg, image, n).len() ==> spec_in_ramp(
                cfg.sympols,
                (#[trigger] spec_image_fragments(cfg, image, n)[i]).sym_index as int,
            ),
    decreases n,
{
    let w = image.spec_dimensions().0 as nat;
    if n > 0 {
        lemma_image_fragments_in_ramp(cfg, image, (n - 1) as nat);
        lemma_row_fragments_in_ramp(cfg, image, (n - 1) as u32, w);
        assert(n * w == (n - 1) * w + w) by (nonlinear_arith)
            requires
                n > 0,
        ;
    } else {
        assert(0 * w == 0);
    }
}

/// A text image takes every instruction of a row: each symbol index fits
/// into a byte.
proof fn lemma_row_admitted<I: PixelImage>(cfg: ConfigView, image: &I, y: u32, n: nat)
    requires
        cfg.sympols.len() <= MAX_RAMP_LEN,
    ensures
        spec_admits_all::<TextImage>(spec_row_instructions(cfg, image, y, n)),
    decreases n,
{
    if n > 0 {
        lemma_row_admitted(cfg, image, y, (n - 1) as nat);
        if cfg.sympols.len() > 0 {
            lemma_sym_index_in_range(
                cfg.sympols.len() as int,
                image.spec_pixel((n - 1) as u32, y),
            );
        }
    }
}

/// A text image takes every instruction of the first `n` rows.
proof fn lemma_rows_admitted<I: PixelImage>(cfg: ConfigView, image: &I, n: nat)
    requires
        cfg.sympols.len() <= MAX_RAMP_LEN,
    ensures
        spec_admits_all::<TextImage>(spec_rows_instructions(cfg, image, n)),
    decreases n,
{
    if n > 0 {
        lemma_rows_admitted(cfg, image, (n - 1) as nat);
        lemma_row_admitted(cfg, image, (n - 1) as u32, image.spec_dimensions().0 as nat);
    }
}

/// A text image takes every instruction of a conversion whose ramp holds at
/// most [`MAX_RAMP_LEN`] glyphs.
pub proof fn lemma_buffered_admitted<I: PixelImage>(cfg: ConfigView, image: &I)
    requires
        cfg.sympols.len() <= MAX_RAMP_LEN,
    ensures
        spec_admits_all::<TextImage>(spec_instructions::<I, TextImage>(cfg, image)),
{
    lemma_rows_admitted(cfg, image, image.spec_dimensions().1 as nat);
}

/// Conversion of an image into a text image.
pub trait ToTextImage: PixelImage + Sized {
    /// Converts the image under `cfg` into a text image that holds one
    /// fragment for each pixel.
    fn to_text(&self, cfg: Config) -> (t: TextImage)
        requires
            cfg.sympols@.len() <= MAX_RAMP_LEN,
        ensures
            t@ == spec_text_image(cfg@, self),
            t@.wf(),
    ;
}

impl<T: PixelImage> ToTextImage for T {
    fn to_text(&self, cfg: Config) -> (t: TextImage) {
        let (w, h) = self.dimensions();
        let mut buf = TextImage::new(cfg.clone(), w, h);
        proof {
            lemma_buffered_admitted::<T>(cfg@, self);
            lemma_buffered_fragments::<T>(cfg@, self, buf@);
            lemma_image_fragments_in_ramp::<T>(cfg@, self, h as nat);
            assert(buf@.fragments + spec_image_fragments(cfg@, self, h as nat)
                =~= spec_image_fragments(cfg@, self, h as nat));
        }
        let r = convert_image_to_ascii(&cfg, self, &mut buf);
        assert(r is Ok);
        buf
    }
}

} // verus!
