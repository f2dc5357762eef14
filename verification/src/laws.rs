//! Laws of the extractor, each proved against the spec model in [`crate::scan`]:
//! line classification is total and exclusive, undocumented declarations
//! produce no items, pending doc lines survive intervening code and are
//! flushed at end of input, the two block-comment forms agree, and the unsafe
//! marker is honoured.

use vstd::prelude::*;

use crate::render::{header_md, item_md, items_md, markdown_of, module_docs_md};
use crate::scan::{
    clean_block_line, doc_text, finalize, is_declaration, item_of, open_block, scan_line, scan_lines,
    BlockKind, DocItemView, DocModuleView, ScanState,
};
use crate::text::{
    contains_at, find_sub, first_token, has_prefix, is_space, lemma_find_sub_found,
    lemma_find_sub_none, lemma_strip_leading_at, lemma_trim_end_at, lemma_trim_start_at,
    strip_runs, trim, trim_start,
};

verus! {

/// How one line is treated by the scan, each line falling under exactly one
/// class.
pub enum LineClass {
    /// The line continues (or ends) an open block comment.
    BlockContinuation,
    /// The line opens a module-level block comment `/*!`.
    ModuleBlockDoc,
    /// The line opens an item-level block comment `/**`.
    ItemBlockDoc,
    /// A module line-doc comment `//!`.
    ModuleLineDoc,
    /// An item line-doc comment `///`.
    ItemLineDoc,
    /// A plain comment `//`, skipped.
    PlainComment,
    /// A line that is empty once trimmed, skipped.
    Blank,
    /// Anything else: a code line.
    Code,
}

/// The classification of one line: a total function of the line and of
/// whether a block comment is open, tested in the precedence order the
/// markers require.
pub open spec fn classify(in_block: bool, line: Seq<char>) -> LineClass {
    let t = trim_start(line);
    if in_block {
        LineClass::BlockContinuation
    } else if has_prefix(t, "/*!"@) {
        LineClass::ModuleBlockDoc
    } else if has_prefix(t, "/**"@) {
        LineClass::ItemBlockDoc
    } else if has_prefix(t, "//!"@) {
        LineClass::ModuleLineDoc
    } else if has_prefix(t, "///"@) {
        LineClass::ItemLineDoc
    } else if has_prefix(t, "//"@) {
        LineClass::PlainComment
    } else if t.len() == 0 {
        LineClass::Blank
    } else {
        LineClass::Code
    }
}

proof fn lemma_prefix_head(t: Seq<char>, p: Seq<char>)
    ensures
        has_prefix(t, p) && p.len() > 0 ==> t.len() > 0 && t[0] == p[0],
        has_prefix(t, p) && p.len() > 1 ==> t.len() > 1 && t[1] == p[1],
        has_prefix(t, p) && p.len() > 2 ==> t.len() > 2 && t[2] == p[2],
{
    if has_prefix(t, p) {
        assert forall|i: int| 0 <= i < p.len() implies t[i] == p[i] by {
            assert(t.subrange(0, p.len() as int)[i] == t[i]);
        }
    }
}

/// Classification is total and deterministic — [`classify`] is a function —
/// and the classes describe disjoint sets of lines: each marker class holds
/// exactly when its marker does, once the line-comment markers `//!` and
/// `///`, which are themselves plain-comment prefixes `//`, are tested in
/// precedence order; the block openers `/*!` and `/**` and the blank and
/// code cases exclude each other and all the rest outright.
pub proof fn lemma_classify_partition(line: Seq<char>)
    ensures
        classify(true, line) is BlockContinuation,
        classify(false, line) is ModuleBlockDoc <==> has_prefix(trim_start(line), "/*!"@),
        classify(false, line) is ItemBlockDoc <==> has_prefix(trim_start(line), "/**"@),
        classify(false, line) is ModuleLineDoc <==> has_prefix(trim_start(line), "//!"@),
        classify(false, line) is ItemLineDoc <==> (has_prefix(trim_start(line), "///"@)
            && !has_prefix(trim_start(line), "//!"@)),
        classify(false, line) is PlainComment <==> (has_prefix(trim_start(line), "//"@)
            && !has_prefix(trim_start(line), "///"@) && !has_prefix(trim_start(line), "//!"@)),
        classify(false, line) is Blank <==> (trim_start(line).len() == 0 && !has_prefix(
            trim_start(line),
            "//"@,
        )),
        classify(false, line) is Code <==> (trim_start(line).len() > 0 && !has_prefix(
            trim_start(line),
            "//"@,
        ) && !has_prefix(trim_start(line), "/*!"@) && !has_prefix(trim_start(line), "/**"@)),
{
    let t = trim_start(line);
    reveal_strlit("/*!");
    reveal_strlit("/**");
    reveal_strlit("//!");
    reveal_strlit("///");
    reveal_strlit("//");
    lemma_prefix_head(t, "/*!"@);
    lemma_prefix_head(t, "/**"@);
    lemma_prefix_head(t, "//!"@);
    lemma_prefix_head(t, "///"@);
    lemma_prefix_head(t, "//"@);
    // the two block openers disagree at their third character, the line
    // markers at their second, so at most one of the tested branches holds
    assert(has_prefix(t, "//!"@) ==> has_prefix(t, "//"@)) by {
        if has_prefix(t, "//!"@) {
            assert(t.subrange(0, 2) =~= "//"@);
        }
    }
    assert(has_prefix(t, "///"@) ==> has_prefix(t, "//"@)) by {
        if has_prefix(t, "///"@) {
            assert(t.subrange(0, 2) =~= "//"@);
        }
    }
}

/// The scan treats each line exactly as its class prescribes: the block
/// openers hand the line to [`open_block`], the line-doc markers push one
/// cleaned line to their target, plain comments and blank lines change
/// nothing, and a code line changes nothing unless it is a recognised
/// declaration.
pub proof fn lemma_scan_follows_classification(st: ScanState, line: Seq<char>)
    requires
        st.block is None,
    ensures
        classify(false, line) is ModuleBlockDoc ==> scan_line(st, line) == open_block(
            st,
            trim_start(line),
            BlockKind::Module,
        ),
        classify(false, line) is ItemBlockDoc ==> scan_line(st, line) == open_block(
            st,
            trim_start(line),
            BlockKind::Item,
        ),
        classify(false, line) is ModuleLineDoc ==> scan_line(st, line) == (ScanState {
            module_docs: st.module_docs.push(doc_text(trim_start(line), "//!"@)),
            ..st
        }),
        classify(false, line) is ItemLineDoc ==> scan_line(st, line) == (ScanState {
            pending: st.pending.push(doc_text(trim_start(line), "///"@)),
            ..st
        }),
        classify(false, line) is PlainComment ==> scan_line(st, line) == st,
        classify(false, line) is Blank ==> scan_line(st, line) == st,
        classify(false, line) is Code && !is_declaration(trim_start(line)) ==> scan_line(st, line)
            == st,
{
}

/// A declaration line seen with no accumulated doc lines never produces an
/// item: whatever the line is, a scan step from a state with an empty
/// pending accumulator leaves the items unchanged.
pub proof fn lemma_no_docs_no_item(st: ScanState, line: Seq<char>)
    requires
        st.pending.len() == 0,
    ensures
        scan_line(st, line).items == st.items,
{
}

/// Pending doc lines persist across an intervening undocumented code line:
/// a code line that is not a recognised declaration changes nothing at all.
pub proof fn lemma_pending_persists(st: ScanState, line: Seq<char>)
    requires
        st.block is None,
        trim_start(line).len() > 0,
        !has_prefix(trim_start(line), "//"@),
        !has_prefix(trim_start(line), "/*!"@),
        !has_prefix(trim_start(line), "/**"@),
        !is_declaration(trim_start(line)),
    ensures
        scan_line(st, line) == st,
{
    let t = trim_start(line);
    reveal_strlit("/*!");
    reveal_strlit("/**");
    reveal_strlit("//!");
    reveal_strlit("///");
    reveal_strlit("//");
    assert(has_prefix(t, "//!"@) ==> has_prefix(t, "//"@)) by {
        if has_prefix(t, "//!"@) {
            assert(t.subrange(0, 2) =~= "//"@);
        }
    }
    assert(has_prefix(t, "///"@) ==> has_prefix(t, "//"@)) by {
        if has_prefix(t, "///"@) {
            assert(t.subrange(0, 2) =~= "//"@);
        }
    }
}

/// The next recognised declaration consumes the pending doc lines: they
/// become exactly the docs of the one new item, and the accumulator is left
/// empty.
pub proof fn lemma_declaration_consumes(st: ScanState, line: Seq<char>)
    requires
        st.block is None,
        trim_start(line).len() > 0,
        !has_prefix(trim_start(line), "//"@),
        !has_prefix(trim_start(line), "/*!"@),
        !has_prefix(trim_start(line), "/**"@),
        is_declaration(trim_start(line)),
        st.pending.len() > 0,
    ensures
        scan_line(st, line).items == st.items.push(item_of(trim_start(line), st.pending)),
        scan_line(st, line).items.last().docs == st.pending,
        scan_line(st, line).pending.len() == 0,
        scan_line(st, line).module_docs == st.module_docs,
{
    let t = trim_start(line);
    reveal_strlit("/*!");
    reveal_strlit("/**");
    reveal_strlit("//!");
    reveal_strlit("///");
    reveal_strlit("//");
    assert(has_prefix(t, "//!"@) ==> has_prefix(t, "//"@)) by {
        if has_prefix(t, "//!"@) {
            assert(t.subrange(0, 2) =~= "//"@);
        }
    }
    assert(has_prefix(t, "///"@) ==> has_prefix(t, "//"@)) by {
        if has_prefix(t, "///"@) {
            assert(t.subrange(0, 2) =~= "//"@);
        }
    }
}

/// Doc lines still pending at end of input are flushed into the module
/// documentation rather than discarded.
pub proof fn lemma_eof_flushes_pending(st: ScanState)
    requires
        st.block is None,
    ensures
        finalize(st).module_docs == st.module_docs + st.pending,
        finalize(st).items == st.items,
{
}

/// A declaration line whose first token is the unsafe marker produces an
/// item with `is_unsafe` set, whatever follows the marker.
pub proof fn lemma_unsafe_marker(st: ScanState, line: Seq<char>)
    requires
        st.block is None,
        st.pending.len() > 0,
        first_token(trim_start(line)) == "unsafe"@,
    ensures
        scan_line(st, line).items == st.items.push(item_of(trim_start(line), st.pending)),
        scan_line(st, line).items.last().is_unsafe,
{
    let t = trim_start(line);
    reveal_strlit("unsafe");
    reveal_strlit("/*!");
    reveal_strlit("/**");
    reveal_strlit("//!");
    reveal_strlit("///");
    reveal_strlit("//");
    assert(first_token(t).len() == 6);
    assert(t.len() > 0 && !is_space(t[0]));
    assert(first_token(t)[0] == t[0]);
    assert(t[0] == 'u');
    lemma_prefix_head(t, "/*!"@);
    lemma_prefix_head(t, "/**"@);
    lemma_prefix_head(t, "//!"@);
    lemma_prefix_head(t, "///"@);
    lemma_prefix_head(t, "//"@);
    assert(!has_prefix(t, "/*!"@));
    assert(!has_prefix(t, "/**"@));
    assert(!has_prefix(t, "//!"@));
    assert(!has_prefix(t, "///"@));
    assert(!has_prefix(t, "//"@));
    assert(is_declaration(t));
    assert(scan_line(st, line).items == st.items.push(item_of(t, st.pending)));
    assert(scan_line(st, line).items.last() == item_of(t, st.pending));
    assert(item_of(t, st.pending).is_unsafe);
}

/// A one-line module block comment and a multi-line module block comment
/// with the same text populate the module documentation identically: for a
/// non-empty text `c` that is trimmed, does not begin with `*` and does not
/// contain the block terminator, scanning the single line `/*! c */` and
/// scanning the three lines `/*!`, `c`, `*/` reach the same state, in which
/// exactly the line `c` has been appended to the module docs.
pub proof fn lemma_block_comment_forms_agree(st: ScanState, c: Seq<char>)
    requires
        st.block is None,
        c.len() > 0,
        !is_space(c[0]),
        !is_space(c.last()),
        c[0] != '*',
        forall|j: int| !contains_at(c, "*/"@, j),
    ensures
        scan_lines(st, seq!["/*! "@ + c + " */"@]) == scan_lines(st, seq!["/*!"@, c, "*/"@]),
        scan_lines(st, seq!["/*! "@ + c + " */"@]).module_docs == st.module_docs.push(c),
        scan_lines(st, seq!["/*! "@ + c + " */"@]).pending == st.pending,
        scan_lines(st, seq!["/*! "@ + c + " */"@]).items == st.items,
        scan_lines(st, seq!["/*! "@ + c + " */"@]).block is None,
{
    reveal_strlit("/*! ");
    reveal_strlit(" */");
    reveal_strlit("/*!");
    reveal_strlit("*/");
    let p = "*/"@;
    let opener = "/*!"@;
    // `c` itself is untouched by the cleaning steps
    lemma_strip_leading_at(c, '*', 0);
    lemma_trim_start_at(c, 0);
    lemma_trim_end_at(c, c.len() as int);
    assert(c.skip(0) =~= c);
    assert(c.take(c.len() as int) =~= c);
    assert(clean_block_line(c) == c);

    // the one-line form
    let l1 = "/*! "@ + c + " */"@;
    assert(l1[0] == '/');
    lemma_trim_start_at(l1, 0);
    assert(l1.skip(0) =~= l1);
    assert(trim_start(l1) == l1);
    assert(l1.subrange(0, 3) =~= opener);
    assert(has_prefix(l1, opener));
    let s1 = l1.skip(3);
    assert(s1[0] == ' ');
    lemma_prefix_head(s1, opener);
    assert(!has_prefix(s1, opener));
    assert(strip_runs(s1, opener) == s1);
    assert(strip_runs(l1, opener) == s1);
    let s2 = c + " */"@;
    lemma_trim_start_at(s1, 1);
    assert(s1.skip(1) =~= s2);
    assert(trim_start(s1) == s2);
    assert(s2[s2.len() - 1] == '/');
    lemma_trim_end_at(s2, s2.len() as int);
    assert(s2.take(s2.len() as int) =~= s2);
    assert(trim(s1) == s2);
    // the first terminator in the extracted content stands right after `c`
    let f = c.len() as int + 1;
    assert(s2.subrange(f, f + 2) =~= p);
    assert(contains_at(s2, p, f));
    assert forall|j: int| 0 <= j < f implies !contains_at(s2, p, j) by {
        if contains_at(s2, p, j) {
            if j + 2 <= c.len() {
                assert(s2.subrange(j, j + 2) =~= c.subrange(j, j + 2));
                assert(contains_at(c, p, j));
            } else if j == c.len() - 1 {
                assert(s2.subrange(j, j + 2)[1] == ' ');
            } else {
                assert(s2.subrange(j, j + 2)[0] == ' ');
            }
        }
    }
    lemma_find_sub_found(s2, p, f);
    let before = s2.subrange(0, f);
    assert(before =~= c.push(' '));
    lemma_strip_leading_at(before, '*', 0);
    assert(before.skip(0) =~= before);
    lemma_trim_start_at(before, 0);
    lemma_trim_end_at(before, c.len() as int);
    assert(before.take(c.len() as int) =~= c);
    assert(clean_block_line(before) == c);
    let one = scan_line(st, l1);
    assert(one == open_block(st, l1, BlockKind::Module));
    assert(one.module_docs == st.module_docs.push(c));
    assert(seq![l1].drop_last() =~= Seq::<Seq<char>>::empty());
    assert(seq![l1].last() == l1);
    assert(scan_lines(st, Seq::<Seq<char>>::empty()) == st);
    assert(scan_lines(st, seq![l1]) == one);

    // the multi-line form: the opener line
    let lo = "/*!"@;
    lemma_trim_start_at(lo, 0);
    assert(lo.skip(0) =~= lo);
    assert(lo.subrange(0, 3) =~= opener);
    assert(has_prefix(lo, opener));
    assert(lo.skip(3) =~= Seq::<char>::empty());
    assert(!has_prefix(Seq::<char>::empty(), opener));
    assert(strip_runs(Seq::<char>::empty(), opener) == Seq::<char>::empty());
    assert(strip_runs(lo, opener) == Seq::<char>::empty());
    assert(trim(Seq::<char>::empty()) == Seq::<char>::empty());
    assert(find_sub(Seq::<char>::empty(), p) == -1);
    let st1 = scan_line(st, lo);
    assert(st1 == ScanState {
        block: Some((BlockKind::Module, Seq::<Seq<char>>::empty())),
        ..st
    });

    // the text line, inside the open block
    lemma_trim_start_at(c, 0);
    assert(trim_start(c) == c);
    lemma_find_sub_none(c, p);
    let st2 = scan_line(st1, c);
    assert(st2 == ScanState {
        block: Some((BlockKind::Module, Seq::<Seq<char>>::empty().push(c))),
        ..st
    });

    // the terminator line
    let lc = "*/"@;
    lemma_trim_start_at(lc, 0);
    assert(lc.skip(0) =~= lc);
    assert(lc.subrange(0, 2) =~= p);
    assert(has_prefix(lc, p));
    assert(find_sub(lc, p) == 0);
    assert(lc.subrange(0, 0) =~= Seq::<char>::empty());
    assert(clean_block_line(Seq::<char>::empty()) == Seq::<char>::empty());
    let st3 = scan_line(st2, lc);
    assert(st3.module_docs =~= st.module_docs.push(c));
    assert(st3.block is None);

    let m = seq![lo, c, lc];
    assert(m.drop_last() =~= seq![lo, c]);
    assert(seq![lo, c].drop_last() =~= seq![lo]);
    assert(seq![lo].drop_last() =~= Seq::<Seq<char>>::empty());
    assert(seq![lo].last() == lo);
    assert(seq![lo, c].last() == c);
    assert(m.last() == lc);
    assert(scan_lines(st, seq![lo]) == st1);
    assert(scan_lines(st, seq![lo, c]) == st2);
    assert(scan_lines(st, m) == st3);
    assert(one =~= st3);
}

proof fn lemma_contains_extend_right(a: Seq<char>, b: Seq<char>, p: Seq<char>, j: int)
    requires
        contains_at(a, p, j),
    ensures
        contains_at(a + b, p, j),
{
    assert((a + b).subrange(j, j + p.len() as int) =~= a.subrange(j, j + p.len() as int));
}

proof fn lemma_contains_extend_left(a: Seq<char>, b: Seq<char>, p: Seq<char>, j: int)
    requires
        contains_at(b, p, j),
    ensures
        contains_at(a + b, p, a.len() + j),
{
    assert((a + b).subrange(a.len() + j, a.len() + j + p.len() as int) =~= b.subrange(
        j,
        j + p.len() as int,
    ));
}

/// The H2 heading `## kind `name`` stands at the front of a rendered item.
proof fn lemma_item_heading_prefix(it: DocItemView)
    ensures
        contains_at(item_md(it), "## "@ + it.kind + " `"@ + it.name + "`"@, 0),
{
    let p = "## "@ + it.kind + " `"@ + it.name + "`"@;
    assert(item_md(it).subrange(0, 0 + p.len() as int) =~= p);
}

proof fn lemma_items_md_contains(its: Seq<DocItemView>, i: int)
    requires
        0 <= i < its.len(),
    ensures
        exists|j: int|
            contains_at(items_md(its), "## "@ + its[i].kind + " `"@ + its[i].name + "`"@, j),
    decreases its.len(),
{
    let p = "## "@ + its[i].kind + " `"@ + its[i].name + "`"@;
    assert(items_md(its) == items_md(its.drop_last()) + item_md(its.last()));
    if i == its.len() - 1 {
        assert(its[i] == its.last());
        lemma_item_heading_prefix(its.last());
        assert(contains_at(item_md(its.last()), p, 0));
        lemma_contains_extend_left(items_md(its.drop_last()), item_md(its.last()), p, 0);
        let w = items_md(its.drop_last()).len() as int;
        assert(contains_at(items_md(its), p, w));
        assert(exists|j: int|
            contains_at(items_md(its), "## "@ + its[i].kind + " `"@ + its[i].name + "`"@, j));
    } else {
        assert(its.drop_last()[i] == its[i]);
        lemma_items_md_contains(its.drop_last(), i);
        let pd = "## "@ + its.drop_last()[i].kind + " `"@ + its.drop_last()[i].name + "`"@;
        assert(pd == p);
        let j = choose|j: int| contains_at(items_md(its.drop_last()), pd, j);
        assert(contains_at(items_md(its.drop_last()), p, j));
        lemma_contains_extend_right(items_md(its.drop_last()), item_md(its.last()), p, j);
        assert(contains_at(items_md(its), p, j));
        assert(exists|j: int|
            contains_at(items_md(its), "## "@ + its[i].kind + " `"@ + its[i].name + "`"@, j));
    }
}

/// The rendered document begins with an H1 heading that names the file:
/// `# Documentation for ` followed by the display name in backquotes.
pub proof fn lemma_markdown_names_file(m: DocModuleView, file_name: Seq<char>)
    ensures
        has_prefix(markdown_of(m, file_name), "# Documentation for `"@ + file_name + "`"@),
{
    reveal_strlit("# Documentation for `");
    reveal_strlit("`\n\n");
    reveal_strlit("`");
    let p = "# Documentation for `"@ + file_name + "`"@;
    let md = markdown_of(m, file_name);
    assert(md.len() >= p.len());
    assert(md.subrange(0, p.len() as int) =~= p);
}

/// Every item of the module produces an H2 heading containing its kind and
/// its name: `## kind `name`` occurs in the rendered document.
pub proof fn lemma_markdown_item_heading(m: DocModuleView, file_name: Seq<char>, i: int)
    requires
        0 <= i < m.items.len(),
    ensures
        exists|j: int|
            contains_at(
                markdown_of(m, file_name),
                "## "@ + m.items[i].kind + " `"@ + m.items[i].name + "`"@,
                j,
            ),
{
    let p = "## "@ + m.items[i].kind + " `"@ + m.items[i].name + "`"@;
    lemma_items_md_contains(m.items, i);
    let j = choose|j: int| contains_at(items_md(m.items), p, j);
    assert(contains_at(items_md(m.items), p, j));
    let pre = header_md(file_name) + module_docs_md(m.module_docs);
    lemma_contains_extend_left(pre, items_md(m.items), p, j);
    assert(markdown_of(m, file_name) == pre + items_md(m.items));
    let w = pre.len() + j;
    assert(contains_at(markdown_of(m, file_name), p, w));
}

} // verus!
