//! The renderer: turns a [`DocModule`] into a Markdown document. The exact
//! output is given by the spec function [`markdown_of`].

use vstd::prelude::*;
use vstd::string::StringExecFns;

use crate::scan::{item_views, views_of, DocItem, DocItemView, DocModule, DocModuleView};
use crate::text::{chars_of, has_prefix, has_prefix_x, seq_eq_str, string_of, trim, trim_x};

verus! {

/// Doc lines rendered one per line, each followed by a newline.
pub open spec fn lines_md(ls: Seq<Seq<char>>) -> Seq<char>
    decreases ls.len(),
{
    if ls.len() == 0 {
        Seq::empty()
    } else {
        lines_md(ls.drop_last()) + ls.last() + "\n"@
    }
}

/// The module-documentation paragraph: the lines followed by a blank line,
/// or nothing when there are no module docs.
pub open spec fn module_docs_md(ls: Seq<Seq<char>>) -> Seq<char> {
    if ls.len() == 0 {
        Seq::empty()
    } else {
        lines_md(ls) + "\n"@
    }
}

/// Whether an item's name follows one of the resource-type naming
/// conventions that get an explanatory note.
pub open spec fn is_resource_name(name: Seq<char>) -> bool {
    ||| has_prefix(name, "Thread<"@)
    ||| has_prefix(name, "Mem"@)
    ||| name == "Mutex"@
    ||| name == "File"@
    ||| name == "Port"@
    ||| name == "Device"@
    ||| name == "Ptr"@
}

/// An item's H2 heading: its kind and name, with an unsafe badge when the
/// item is unsafe.
pub open spec fn item_heading(it: DocItemView) -> Seq<char> {
    "## "@ + it.kind + " `"@ + it.name + "`"@ + (if it.is_unsafe {
        " **(unsafe)**"@
    } else {
        Seq::<char>::empty()
    }) + "\n\n"@
}

/// One rendered item: heading, doc paragraph, fenced signature, and the
/// resource-type note when the name calls for one.
pub open spec fn item_md(it: DocItemView) -> Seq<char> {
    item_heading(it) + lines_md(it.docs) + "\n"@ + "```dpl\n"@ + trim(it.signature) + "\n```\n\n"@
        + (if is_resource_name(it.name) {
        "*Resource type (v0.2)*\n\n"@
    } else {
        Seq::<char>::empty()
    })
}

/// All items rendered in order.
pub open spec fn items_md(its: Seq<DocItemView>) -> Seq<char>
    decreases its.len(),
{
    if its.len() == 0 {
        Seq::empty()
    } else {
        items_md(its.drop_last()) + item_md(its.last())
    }
}

/// The document's H1 heading, naming the file.
pub open spec fn header_md(file_name: Seq<char>) -> Seq<char> {
    "# Documentation for `"@ + file_name + "`\n\n"@
}

/// The whole Markdown document for a module: header, module docs, items.
pub open spec fn markdown_of(m: DocModuleView, file_name: Seq<char>) -> Seq<char> {
    header_md(file_name) + module_docs_md(m.module_docs) + items_md(m.items)
}

/// Tests whether the item name gets the resource-type note.
fn is_resource_name_x(name: &Vec<char>) -> (b: bool)
    ensures
        b == is_resource_name(name@),
{
    has_prefix_x(name, "Thread<") || has_prefix_x(name, "Mem") || seq_eq_str(name, "Mutex")
        || seq_eq_str(name, "File") || seq_eq_str(name, "Port") || seq_eq_str(name, "Device")
        || seq_eq_str(name, "Ptr")
}

/// Appends one rendered item to the output.
fn append_item(out: &mut String, item: &DocItem)
    ensures
        final(out)@ == old(out)@ + item_md(item@),
{
    let ghost base = out@;
    out.append("## ");
    out.append(item.kind.as_str());
    out.append(" `");
    out.append(item.name.as_str());
    out.append("`");
    if item.is_unsafe {
        out.append(" **(unsafe)**");
    }
    out.append("\n\n");
    proof {
        assert(out@ =~= base + item_heading(item@));
    }
    let ghost based = out@;
    let n_docs = item.docs.len();
    let mut j: usize = 0;
    proof {
        assert(lines_md(item@.docs.take(0)) =~= Seq::<char>::empty());
        assert(out@ =~= based + lines_md(item@.docs.take(0)));
    }
    while j < n_docs
        invariant
            0 <= j <= n_docs == item.docs@.len(),
            out@ == based + lines_md(item@.docs.take(j as int)),
        decreases n_docs - j,
    {
        out.append(item.docs[j].as_str());
        out.append("\n");
        j = j + 1;
        proof {
            assert(item@.docs.take(j as int).drop_last() =~= item@.docs.take(j - 1));
            assert(item@.docs.take(j as int).last() == item.docs@[j - 1]@);
            assert(out@ =~= based + lines_md(item@.docs.take(j as int)));
        }
    }
    proof {
        assert(item@.docs.take(n_docs as int) =~= item@.docs);
    }
    out.append("\n");
    out.append("```dpl\n");
    let sig_chars = chars_of(item.signature.as_str());
    let sig_trimmed = trim_x(&sig_chars);
    let sig_str = string_of(&sig_trimmed);
    out.append(sig_str.as_str());
    out.append("\n```\n\n");
    let name_chars = chars_of(item.name.as_str());
    if is_resource_name_x(&name_chars) {
        out.append("*Resource type (v0.2)*\n\n");
    }
    proof {
        assert(out@ =~= base + item_md(item@));
    }
}

/// Generates a Markdown document from a parsed [`DocModule`], headed by the
/// given display name. Returns exactly [`markdown_of`] of the module.
pub fn generate_markdown(module: &DocModule, file_name: &str) -> (r: String)
    ensures
        r@ == markdown_of(module@, file_name@),
{
    let ghost mdv = views_of(module.module_docs@);
    let ghost itv = item_views(module.items@);
    let mut out = String::new();
    out.append("# Documentation for `");
    out.append(file_name);
    out.append("`\n\n");
    proof {
        assert(out@ =~= header_md(file_name@));
    }
    if module.module_docs.len() > 0 {
        let n = module.module_docs.len();
        let mut i: usize = 0;
        proof {
            assert(lines_md(mdv.take(0)) =~= Seq::<char>::empty());
            assert(out@ =~= header_md(file_name@) + lines_md(mdv.take(0)));
        }
        while i < n
            invariant
                0 <= i <= n == module.module_docs@.len(),
                mdv == views_of(module.module_docs@),
                out@ == header_md(file_name@) + lines_md(mdv.take(i as int)),
            decreases n - i,
        {
            out.append(module.module_docs[i].as_str());
            out.append("\n");
            i = i + 1;
            proof {
                assert(mdv.take(i as int).drop_last() =~= mdv.take(i - 1));
                assert(out@ =~= header_md(file_name@) + lines_md(mdv.take(i as int)));
            }
        }
        out.append("\n");
        proof {
            assert(mdv.take(n as int) =~= mdv);
            assert(out@ =~= header_md(file_name@) + module_docs_md(mdv));
        }
    }
    proof {
        assert(out@ =~= header_md(file_name@) + module_docs_md(mdv));
        assert(items_md(itv.take(0)) =~= Seq::<char>::empty());
        assert(out@ =~= header_md(file_name@) + module_docs_md(mdv) + items_md(itv.take(0)));
    }
    let n_items = module.items.len();
    let mut i: usize = 0;
    while i < n_items
        invariant
            0 <= i <= n_items == module.items@.len(),
            mdv == views_of(module.module_docs@),
            itv == item_views(module.items@),
            out@ == header_md(file_name@) + module_docs_md(mdv) + items_md(itv.take(i as int)),
        decreases n_items - i,
    {
        let item = &module.items[i];
        append_item(&mut out, item);
        i = i + 1;
        proof {
            assert(itv[i - 1] == item@);
            assert(itv.take(i as int).drop_last() =~= itv.take(i - 1));
            assert(itv.take(i as int).last() == itv[i - 1]);
            assert(out@ =~= header_md(file_name@) + module_docs_md(mdv) + items_md(
                itv.take(i as int),
            ));
        }
    }
    proof {
        assert(itv.take(n_items as int) =~= itv);
    }
    out
}

} // verus!
