//! The extractor: a single pass over the lines of a source string that
//! classifies each line, accumulates documentation comments, and attaches
//! them to the next recognised top-level declaration.
//!
//! The whole pass is modelled by the spec functions [`split_lines`],
//! [`scan_line`], [`scan_lines`] and [`finalize`]; [`parse_str`] is proved
//! to return exactly their composition, [`parse_spec`].

use vstd::prelude::*;

use crate::text::{
    contains_char, find_sub, first_token, has_prefix, second_token, strip_leading, strip_runs,
    strip_trailing, trim, trim_end, trim_start,
};
use crate::text::{
    chars_of, contains_char_x, copy_range, find_sub_x, first_token_x, has_prefix_x,
    lemma_find_sub_valid, second_token_x, seq_eq_str, string_of, strip_leading_x, strip_runs_x,
    strip_trailing_x, trim_end_x, trim_x, trim_start_x,
};

verus! {

/// A single documented top-level item.
#[derive(Debug, Clone)]
pub struct DocItem {
    /// Kind of the item (e.g., `forge`, `shape`, `process`, etc.).
    pub kind: String,
    /// Identifier of the item.
    pub name: String,
    /// Raw signature line for the item, trimmed of leading/trailing whitespace.
    pub signature: String,
    /// Documentation lines associated with the item.
    pub docs: Vec<String>,
    /// Whether the signature line's first token is the unsafe marker.
    pub is_unsafe: bool,
}

/// Represents a documented module: its module-level documentation and the
/// documented items found in it, in source order.
#[derive(Debug, Clone)]
pub struct DocModule {
    /// Module-level documentation extracted from `//!` and `/*!` comments.
    pub module_docs: Vec<String>,
    /// Documented items within the module.
    pub items: Vec<DocItem>,
}

/// The mathematical value of a [`DocItem`].
#[verifier::ext_equal]
pub struct DocItemView {
    pub kind: Seq<char>,
    pub name: Seq<char>,
    pub signature: Seq<char>,
    pub docs: Seq<Seq<char>>,
    pub is_unsafe: bool,
}

/// The mathematical value of a [`DocModule`].
#[verifier::ext_equal]
pub struct DocModuleView {
    pub module_docs: Seq<Seq<char>>,
    pub items: Seq<DocItemView>,
}

/// The views of a sequence of strings.
pub open spec fn views_of(s: Seq<String>) -> Seq<Seq<char>> {
    Seq::new(s.len(), |i: int| s[i]@)
}

/// The views of a sequence of items.
pub open spec fn item_views(s: Seq<DocItem>) -> Seq<DocItemView> {
    Seq::new(s.len(), |i: int| s[i]@)
}

impl View for DocItem {
    type V = DocItemView;

    open spec fn view(&self) -> DocItemView {
        DocItemView {
            kind: self.kind@,
            name: self.name@,
            signature: self.signature@,
            docs: views_of(self.docs@),
            is_unsafe: self.is_unsafe,
        }
    }
}

impl View for DocModule {
    type V = DocModuleView;

    open spec fn view(&self) -> DocModuleView {
        DocModuleView { module_docs: views_of(self.module_docs@), items: item_views(self.items@) }
    }
}

/// Which kind of block comment is open: a module-level `/*!` block or an
/// item-level `/**` block.
pub enum BlockKind {
    Module,
    Item,
}

/// The scanner's state between two lines.
#[verifier::ext_equal]
pub struct ScanState {
    /// Documentation attributed to the module itself.
    pub module_docs: Seq<Seq<char>>,
    /// The documented items found so far, in source order.
    pub items: Seq<DocItemView>,
    /// Doc lines not yet attached to an item.
    pub pending: Seq<Seq<char>>,
    /// The open block comment, with the lines accumulated in it so far.
    pub block: Option<(BlockKind, Seq<Seq<char>>)>,
}

/// The state the scan starts from: nothing collected, no open block.
pub open spec fn init_state() -> ScanState {
    ScanState {
        module_docs: Seq::empty(),
        items: Seq::empty(),
        pending: Seq::empty(),
        block: None,
    }
}

/// `l` without one trailing carriage return.
pub open spec fn strip_cr(l: Seq<char>) -> Seq<char> {
    if l.len() > 0 && l.last() == '\r' {
        l.drop_last()
    } else {
        l
    }
}

pub open spec fn split_lines_rec(s: Seq<char>, cur: Seq<char>, acc: Seq<Seq<char>>) -> Seq<
    Seq<char>,
>
    decreases s.len(),
{
    if s.len() == 0 {
        if cur.len() == 0 {
            acc
        } else {
            acc.push(strip_cr(cur))
        }
    } else if s[0] == '\n' {
        split_lines_rec(s.drop_first(), Seq::empty(), acc.push(strip_cr(cur)))
    } else {
        split_lines_rec(s.drop_first(), cur.push(s[0]), acc)
    }
}

/// The physical lines of `s`: split at `'\n'`, one trailing `'\r'` removed
/// from each line, and no final empty line after a terminating newline.
pub open spec fn split_lines(s: Seq<char>) -> Seq<Seq<char>> {
    split_lines_rec(s, Seq::empty(), Seq::empty())
}

/// The fixed set of declaration keywords recognised as the first token of a
/// top-level declaration.
pub open spec fn is_keyword(t: Seq<char>) -> bool {
    ||| t == "forge"@
    ||| t == "shape"@
    ||| t == "process"@
    ||| t == "bind"@
    ||| t == "effect"@
    ||| t == "module"@
    ||| t == "type"@
    ||| t == "trait"@
    ||| t == "enum"@
    ||| t == "const"@
    ||| t == "K"@
    ||| t == "Q"@
    ||| t == "\u{03a6}"@
    ||| t == "alloc"@
    ||| t == "free"@
    ||| t == "spawn"@
    ||| t == "join"@
    ||| t == "mutex_new"@
    ||| t == "mutex_lock"@
    ||| t == "mutex_unlock"@
    ||| t == "open"@
    ||| t == "read"@
    ||| t == "write"@
    ||| t == "close"@
    ||| t == "io_read"@
    ||| t == "io_write"@
    ||| t == "mmio_read"@
    ||| t == "mmio_write"@
    ||| t == "unsafe"@
}

/// The fixed set of resource-type names recognised as declarations.
pub open spec fn is_resource_type(t: Seq<char>) -> bool {
    ||| t == "Thread"@
    ||| t == "Mem"@
    ||| t == "Mutex"@
    ||| t == "File"@
    ||| t == "Port"@
    ||| t == "Device"@
    ||| t == "Ptr"@
}

/// Whether the left-trimmed code line `t` is a recognised top-level
/// declaration: its first token is a keyword or a resource-type name, or the
/// line begins with the unsafe marker, or its first token is a generic
/// `Thread` instantiation.
pub open spec fn is_declaration(t: Seq<char>) -> bool {
    let tok = first_token(t);
    ||| is_keyword(tok)
    ||| has_prefix(t, "unsafe"@)
    ||| is_resource_type(tok)
    ||| (has_prefix(tok, "Thread"@) && contains_char(tok, '<'))
}

/// A doc line taken from inside a block comment: one leading run of `*`
/// removed, then trimmed.
pub open spec fn clean_block_line(t: Seq<char>) -> Seq<char> {
    trim(strip_leading(t, '*'))
}

/// The text of a line-doc comment: the marker (repeated) removed, then
/// trimmed.
pub open spec fn doc_text(t: Seq<char>, marker: Seq<char>) -> Seq<char> {
    trim(strip_runs(t, marker))
}

/// The item built from the left-trimmed declaration line `t` and the pending
/// doc lines: kind and name are its first and second whitespace-delimited
/// tokens, the name with trailing `{`, `)` and `(` stripped, and the
/// signature is the whole trimmed line.
pub open spec fn item_of(t: Seq<char>, pending: Seq<Seq<char>>) -> DocItemView {
    DocItemView {
        kind: first_token(t),
        name: strip_trailing(
            strip_trailing(strip_trailing(second_token(t), '{'), ')'),
            '(',
        ),
        signature: trim_end(t),
        docs: pending,
        is_unsafe: first_token(t) == "unsafe"@,
    }
}

/// The effect of a line that opens a block comment: a one-line block is
/// extracted and cleaned on the spot; otherwise a block of the given kind is
/// opened with an empty accumulator.
pub open spec fn open_block(st: ScanState, t: Seq<char>, kind: BlockKind) -> ScanState {
    let opener = if kind is Module {
        "/*!"@
    } else {
        "/**"@
    };
    let content = trim(strip_runs(t, opener));
    let f = find_sub(content, "*/"@);
    if f >= 0 {
        let cleaned = clean_block_line(content.subrange(0, f));
        if cleaned.len() == 0 {
            st
        } else if kind is Module {
            ScanState { module_docs: st.module_docs.push(cleaned), ..st }
        } else {
            ScanState { pending: st.pending.push(cleaned), ..st }
        }
    } else {
        ScanState { block: Some((kind, Seq::<Seq<char>>::empty())), ..st }
    }
}

/// One step of the scan: how one source line changes the scanner's state.
pub open spec fn scan_line(st: ScanState, line: Seq<char>) -> ScanState {
    let t = trim_start(line);
    match st.block {
        Some((kind, acc)) => {
            let f = find_sub(t, "*/"@);
            if f >= 0 {
                let cleaned = clean_block_line(t.subrange(0, f));
                let acc2 = if cleaned.len() > 0 {
                    acc.push(cleaned)
                } else {
                    acc
                };
                if kind is Module {
                    ScanState { module_docs: st.module_docs + acc2, block: None, ..st }
                } else {
                    ScanState { pending: st.pending + acc2, block: None, ..st }
                }
            } else {
                ScanState { block: Some((kind, acc.push(clean_block_line(t)))), ..st }
            }
        },
        None => {
            if has_prefix(t, "/*!"@) {
                open_block(st, t, BlockKind::Module)
            } else if has_prefix(t, "/**"@) {
                open_block(st, t, BlockKind::Item)
            } else if has_prefix(t, "//!"@) {
                ScanState { module_docs: st.module_docs.push(doc_text(t, "//!"@)), ..st }
            } else if has_prefix(t, "///"@) {
                ScanState { pending: st.pending.push(doc_text(t, "///"@)), ..st }
            } else if has_prefix(t, "//"@) {
                st
            } else if t.len() == 0 {
                st
            } else if is_declaration(t) && st.pending.len() > 0 {
                ScanState {
                    items: st.items.push(item_of(t, st.pending)),
                    pending: Seq::empty(),
                    ..st
                }
            } else {
                st
            }
        },
    }
}

/// The scan folded over a sequence of lines.
pub open spec fn scan_lines(st: ScanState, lines: Seq<Seq<char>>) -> ScanState
    decreases lines.len(),
{
    if lines.len() == 0 {
        st
    } else {
        scan_line(scan_lines(st, lines.drop_last()), lines.last())
    }
}

/// End of input: an open block comment is flushed to its target, and doc
/// lines never attached to a declaration become module documentation.
pub open spec fn finalize(st: ScanState) -> DocModuleView {
    let flushed = match st.block {
        Some((BlockKind::Module, acc)) => ScanState { module_docs: st.module_docs + acc, ..st },
        Some((BlockKind::Item, acc)) => ScanState { pending: st.pending + acc, ..st },
        None => st,
    };
    DocModuleView {
        module_docs: flushed.module_docs + flushed.pending,
        items: flushed.items,
    }
}

/// What [`parse_str`] returns: the line scan folded over the lines of the
/// source, then finalized.
pub open spec fn parse_spec(src: Seq<char>) -> DocModuleView {
    finalize(scan_lines(init_state(), split_lines(src)))
}

pub proof fn lemma_views_push(s: Seq<String>, x: String)
    ensures
        views_of(s.push(x)) == views_of(s).push(x@),
{
    assert(views_of(s.push(x)) =~= views_of(s).push(x@));
}

pub proof fn lemma_views_concat(a: Seq<String>, b: Seq<String>)
    ensures
        views_of(a + b) == views_of(a) + views_of(b),
{
    assert(views_of(a + b) =~= views_of(a) + views_of(b));
}

pub proof fn lemma_item_views_push(s: Seq<DocItem>, x: DocItem)
    ensures
        item_views(s.push(x)) == item_views(s).push(x@),
{
    assert(item_views(s.push(x)) =~= item_views(s).push(x@));
}

/// Tests whether the token is one of the declaration keywords.
fn is_keyword_x(tok: &Vec<char>) -> (b: bool)
    ensures
        b == is_keyword(tok@),
{
    seq_eq_str(tok, "forge") || seq_eq_str(tok, "shape") || seq_eq_str(tok, "process")
        || seq_eq_str(tok, "bind") || seq_eq_str(tok, "effect") || seq_eq_str(tok, "module")
        || seq_eq_str(tok, "type") || seq_eq_str(tok, "trait") || seq_eq_str(tok, "enum")
        || seq_eq_str(tok, "const") || seq_eq_str(tok, "K") || seq_eq_str(tok, "Q")
        || seq_eq_str(tok, "\u{03a6}") || seq_eq_str(tok, "alloc") || seq_eq_str(tok, "free")
        || seq_eq_str(tok, "spawn") || seq_eq_str(tok, "join") || seq_eq_str(tok, "mutex_new")
        || seq_eq_str(tok, "mutex_lock") || seq_eq_str(tok, "mutex_unlock") || seq_eq_str(
        tok,
        "open",
    ) || seq_eq_str(tok, "read") || seq_eq_str(tok, "write") || seq_eq_str(tok, "close")
        || seq_eq_str(tok, "io_read") || seq_eq_str(tok, "io_write") || seq_eq_str(
        tok,
        "mmio_read",
    ) || seq_eq_str(tok, "mmio_write") || seq_eq_str(tok, "unsafe")
}

/// Tests whether the token is one of the resource-type names.
fn is_resource_x(tok: &Vec<char>) -> (b: bool)
    ensures
        b == is_resource_type(tok@),
{
    seq_eq_str(tok, "Thread") || seq_eq_str(tok, "Mem") || seq_eq_str(tok, "Mutex") || seq_eq_str(
        tok,
        "File",
    ) || seq_eq_str(tok, "Port") || seq_eq_str(tok, "Device") || seq_eq_str(tok, "Ptr")
}

/// The scanner's executable state: the accumulators of [`ScanState`], with
/// the open block's kind in `block` and its lines in `acc`.
struct Scanner {
    module_docs: Vec<String>,
    items: Vec<DocItem>,
    pending: Vec<String>,
    /// `Some(true)` while a module-level block comment is open, `Some(false)`
    /// while an item-level one is.
    block: Option<bool>,
    acc: Vec<String>,
}

impl View for Scanner {
    type V = ScanState;

    closed spec fn view(&self) -> ScanState {
        ScanState {
            module_docs: views_of(self.module_docs@),
            items: item_views(self.items@),
            pending: views_of(self.pending@),
            block: match self.block {
                None => None,
                Some(m) => Some(
                    (
                        if m {
                            BlockKind::Module
                        } else {
                            BlockKind::Item
                        },
                        views_of(self.acc@),
                    ),
                ),
            },
        }
    }
}

impl Scanner {
    fn new() -> (r: Scanner)
        ensures
            r@ == init_state(),
    {
        let r = Scanner {
            module_docs: Vec::new(),
            items: Vec::new(),
            pending: Vec::new(),
            block: None,
            acc: Vec::new(),
        };
        proof {
            assert(r@ =~= init_state());
        }
        r
    }

    /// Handles a line that opens a block comment of the given kind.
    fn do_open_block(&mut self, t: &Vec<char>, is_mod: bool)
        requires
            old(self)@.block is None,
        ensures
            final(self)@ == open_block(
                old(self)@,
                t@,
                if is_mod {
                    BlockKind::Module
                } else {
                    BlockKind::Item
                },
            ),
    {
        let opener: &str = if is_mod {
            "/*!"
        } else {
            "/**"
        };
        let stripped = strip_runs_x(t, opener);
        let content = trim_x(&stripped);
        proof {
            reveal_strlit("*/");
        }
        match find_sub_x(&content, "*/") {
            Some(f) => {
                proof {
                    lemma_find_sub_valid(content@, "*/"@);
                }
                let before = copy_range(&content, 0, f);
                let starless = strip_leading_x(&before, '*');
                let cleaned = trim_x(&starless);
                if cleaned.len() > 0 {
                    let sdoc = string_of(&cleaned);
                    if is_mod {
                        proof {
                            lemma_views_push(self.module_docs@, sdoc);
                        }
                        self.module_docs.push(sdoc);
                    } else {
                        proof {
                            lemma_views_push(self.pending@, sdoc);
                        }
                        self.pending.push(sdoc);
                    }
                }
            },
            None => {
                self.block = Some(is_mod);
                self.acc = Vec::new();
                proof {
                    assert(views_of(self.acc@) =~= Seq::<Seq<char>>::empty());
                }
            },
        }
        proof {
            let kind = if is_mod {
                BlockKind::Module
            } else {
                BlockKind::Item
            };
            assert(self@ =~= open_block(old(self)@, t@, kind));
        }
    }

    /// Feeds one source line to the scanner.
    fn step(&mut self, line: &Vec<char>)
        ensures
            final(self)@ == scan_line(old(self)@, line@),
    {
        let t = trim_start_x(line);
        proof {
            reveal_strlit("*/");
        }
        match self.block {
            Some(is_mod) => {
                match find_sub_x(&t, "*/") {
                    Some(f) => {
                        proof {
                            lemma_find_sub_valid(t@, "*/"@);
                        }
                        let before = copy_range(&t, 0, f);
                        let starless = strip_leading_x(&before, '*');
                        let cleaned = trim_x(&starless);
                        if cleaned.len() > 0 {
                            let sdoc = string_of(&cleaned);
                            proof {
                                lemma_views_push(self.acc@, sdoc);
                            }
                            self.acc.push(sdoc);
                        }
                        proof {
                            lemma_views_concat(self.module_docs@, self.acc@);
                            lemma_views_concat(self.pending@, self.acc@);
                        }
                        if is_mod {
                            self.module_docs.append(&mut self.acc);
                        } else {
                            self.pending.append(&mut self.acc);
                        }
                        self.block = None;
                    },
                    None => {
                        let starless = strip_leading_x(&t, '*');
                        let cleaned = trim_x(&starless);
                        let sdoc = string_of(&cleaned);
                        proof {
                            lemma_views_push(self.acc@, sdoc);
                        }
                        self.acc.push(sdoc);
                    },
                }
            },
            None => {
                if has_prefix_x(&t, "/*!") {
                    self.do_open_block(&t, true);
                } else if has_prefix_x(&t, "/**") {
                    self.do_open_block(&t, false);
                } else if has_prefix_x(&t, "//!") {
                    let stripped = strip_runs_x(&t, "//!");
                    let text = trim_x(&stripped);
                    let sdoc = string_of(&text);
                    proof {
                        lemma_views_push(self.module_docs@, sdoc);
                    }
                    self.module_docs.push(sdoc);
                } else if has_prefix_x(&t, "///") {
                    let stripped = strip_runs_x(&t, "///");
                    let text = trim_x(&stripped);
                    let sdoc = string_of(&text);
                    proof {
                        lemma_views_push(self.pending@, sdoc);
                    }
                    self.pending.push(sdoc);
                } else if has_prefix_x(&t, "//") {
                    // plain comment: skipped
                } else if t.len() == 0 {
                    // blank line: skipped
                } else {
                    let tok = first_token_x(&t);
                    let recognized = is_keyword_x(&tok) || has_prefix_x(&t, "unsafe")
                        || is_resource_x(&tok) || (has_prefix_x(&tok, "Thread") && contains_char_x(
                        &tok,
                        '<',
                    ));
                    if recognized && self.pending.len() > 0 {
                        let sig = trim_end_x(&t);
                        let kind = tok;
                        let name_raw = second_token_x(&t);
                        let name_a = strip_trailing_x(&name_raw, '{');
                        let name_b = strip_trailing_x(&name_a, ')');
                        let name = strip_trailing_x(&name_b, '(');
                        let is_unsafe = seq_eq_str(&kind, "unsafe");
                        let mut docs: Vec<String> = Vec::new();
                        docs.append(&mut self.pending);
                        proof {
                            assert(docs@ =~= old(self).pending@);
                        }
                        let item = DocItem {
                            kind: string_of(&kind),
                            name: string_of(&name),
                            signature: string_of(&sig),
                            docs,
                            is_unsafe,
                        };
                        proof {
                            assert(item@ =~= item_of(t@, old(self)@.pending));
                            lemma_item_views_push(self.items@, item);
                            assert(views_of(self.pending@) =~= Seq::<Seq<char>>::empty());
                        }
                        self.items.push(item);
                    }
                }
            },
        }
        proof {
            assert(self@ =~= scan_line(old(self)@, line@));
        }
    }

    /// Ends the scan: flushes an open block comment and the unattached doc
    /// lines into the module documentation.
    fn finish(self) -> (m: DocModule)
        ensures
            m@ == finalize(self@),
    {
        let mut this = self;
        proof {
            lemma_views_concat(this.module_docs@, this.acc@);
            lemma_views_concat(this.pending@, this.acc@);
        }
        match this.block {
            Some(true) => this.module_docs.append(&mut this.acc),
            Some(false) => this.pending.append(&mut this.acc),
            None => (),
        }
        proof {
            lemma_views_concat(this.module_docs@, this.pending@);
        }
        this.module_docs.append(&mut this.pending);
        let m = DocModule { module_docs: this.module_docs, items: this.items };
        proof {
            assert(m@ =~= finalize(self@));
        }
        m
    }
}

/// The views of a sequence of character vectors.
pub open spec fn lines_views(s: Seq<Vec<char>>) -> Seq<Seq<char>> {
    Seq::new(s.len(), |i: int| s[i]@)
}

/// Splits the characters of `v` into physical lines.
fn split_lines_x(v: &Vec<char>) -> (r: Vec<Vec<char>>)
    ensures
        lines_views(r@) == split_lines(v@),
{
    let vlen = v.len();
    let mut out: Vec<Vec<char>> = Vec::new();
    let mut cur: Vec<char> = Vec::new();
    let mut i: usize = 0;
    proof {
        assert(v@.skip(0) =~= v@);
        assert(lines_views(out@) =~= Seq::<Seq<char>>::empty());
    }
    while i < vlen
        invariant
            0 <= i <= vlen == v@.len(),
            split_lines(v@) == split_lines_rec(v@.skip(i as int), cur@, lines_views(out@)),
        decreases vlen - i,
    {
        let c = v[i];
        proof {
            assert(v@.skip(i as int)[0] == v@[i as int]);
            assert(v@.skip(i as int).drop_first() =~= v@.skip(i + 1));
        }
        if c == '\n' {
            let ghost cur0 = cur@;
            if cur.len() > 0 && cur[cur.len() - 1] == '\r' {
                cur.pop();
                proof {
                    assert(cur@ =~= strip_cr(cur0));
                }
            }
            proof {
                assert(cur@ == strip_cr(cur0));
                assert(lines_views(out@.push(cur)) =~= lines_views(out@).push(cur@));
            }
            out.push(cur);
            cur = Vec::new();
            proof {
                assert(cur@ =~= Seq::<char>::empty());
            }
        } else {
            cur.push(c);
        }
        i = i + 1;
    }
    proof {
        assert(v@.skip(vlen as int) =~= Seq::<char>::empty());
    }
    if cur.len() > 0 {
        let ghost cur0 = cur@;
        if cur[cur.len() - 1] == '\r' {
            cur.pop();
            proof {
                assert(cur@ =~= strip_cr(cur0));
            }
        }
        proof {
            assert(lines_views(out@.push(cur)) =~= lines_views(out@).push(cur@));
        }
        out.push(cur);
    }
    out
}

/// Parses the contents of a Dust source string into a [`DocModule`].
///
/// The source is scanned line by line: documentation comments (`///`,
/// `/** */`, `//!`, `/*! */`) are collected, and item doc comments are
/// attached to the next recognised top-level declaration. The result is
/// exactly [`parse_spec`] of the input.
pub fn parse_str(src: &str) -> (m: DocModule)
    ensures
        m@ == parse_spec(src@),
{
    let cs = chars_of(src);
    let lines = split_lines_x(&cs);
    let mut sc = Scanner::new();
    let n = lines.len();
    let ghost lv = lines_views(lines@);
    let mut i: usize = 0;
    proof {
        assert(lv.take(0) =~= Seq::<Seq<char>>::empty());
    }
    while i < n
        invariant
            0 <= i <= n == lines@.len(),
            lv == lines_views(lines@),
            lv == split_lines(cs@),
            cs@ == src@,
            sc@ == scan_lines(init_state(), lv.take(i as int)),
        decreases n - i,
    {
        sc.step(&lines[i]);
        i = i + 1;
        proof {
            assert(lv.take(i as int).drop_last() =~= lv.take(i - 1));
            assert(lv.take(i as int).last() == lines@[i - 1]@);
        }
    }
    proof {
        assert(lv.take(n as int) =~= lv);
    }
    sc.finish()
}

} // verus!
