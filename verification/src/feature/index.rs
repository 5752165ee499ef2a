//! The index of a feature workspace: its selected source files and the
//! generated modules with their symbols.
use vstd::prelude::*;

use crate::mapping::strs;
use crate::text::{decimal, push_decimal, push_str};

verus! {

/// Index of a feature workspace.
pub struct FeatureIndex {
    pub feature_root: String,
    pub selected_files: Vec<String>,
    pub modules: Vec<FeatureModule>,
}

/// A single generated Rust module within a feature workspace.
pub struct FeatureModule {
    pub name: String,
    /// The selected file that produced this module, when exactly one of the
    /// selected files maps onto the module's name.
    pub selected_file: Option<String>,
    pub functions: Vec<String>,
    pub decls: Vec<String>,
    pub vars: Vec<String>,
}

/// One line per item, each after `indent`.
pub open spec fn item_lines(indent: Seq<char>, items: Seq<Seq<char>>) -> Seq<char>
    decreases items.len(),
{
    if items.len() == 0 {
        seq![]
    } else {
        item_lines(indent, items.drop_last()) + indent + items.last() + "\n"@
    }
}

/// A titled list of a module's symbols; nothing when there are none.
pub open spec fn symbol_group(title: Seq<char>, items: Seq<Seq<char>>) -> Seq<char> {
    if items.len() == 0 {
        seq![]
    } else {
        "    "@ + title + " ("@ + decimal(items.len()) + "):\n"@ + item_lines("      "@, items)
    }
}

/// The lines describing one module.
pub open spec fn module_block(m: FeatureModule) -> Seq<char> {
    "  ["@ + m.name@ + "]\n"@ + match m.selected_file {
        Some(f) => "    selected file: "@ + f@ + "\n"@,
        None => seq![],
    } + symbol_group("functions"@, strs(m.functions@)) + symbol_group("decls"@, strs(m.decls@))
        + symbol_group("vars"@, strs(m.vars@))
}

pub open spec fn module_blocks(ms: Seq<FeatureModule>) -> Seq<char>
    decreases ms.len(),
{
    if ms.len() == 0 {
        seq![]
    } else {
        module_blocks(ms.drop_last()) + module_block(ms.last())
    }
}

/// The summary of an index: its root, its selected files, and its modules.
pub open spec fn index_summary(ix: FeatureIndex) -> Seq<char> {
    "Feature root : "@ + ix.feature_root@ + "\n\n"@ + "Selected source files ("@ + decimal(
        ix.selected_files@.len(),
    ) + "):\n"@ + item_lines("  "@, strs(ix.selected_files@)) + "\n"@ + "Modules ("@ + decimal(
        ix.modules@.len(),
    ) + "):\n"@ + module_blocks(ix.modules@)
}

fn push_items(out: &mut String, indent: &str, items: &Vec<String>)
    ensures
        final(out)@ == old(out)@ + item_lines(indent@, strs(items@)),
{
    let ghost is = strs(items@);
    let mut i: usize = 0;
    while i < items.len()
        invariant
            i <= items@.len(),
            is == strs(items@),
            out@ == old(out)@ + item_lines(indent@, is.take(i as int)),
        decreases items@.len() - i,
    {
        push_str(out, indent);
        push_str(out, items[i].as_str());
        push_str(out, "\n");
        proof {
            assert(is.take(i + 1).drop_last() =~= is.take(i as int));
        }
        i = i + 1;
    }
    proof {
        assert(is.take(items@.len() as int) =~= is);
    }
}

fn push_group(out: &mut String, title: &str, items: &Vec<String>)
    ensures
        final(out)@ == old(out)@ + symbol_group(title@, strs(items@)),
{
    if items.len() == 0 {
        proof {
            assert(old(out)@ + symbol_group(title@, strs(items@)) =~= old(out)@);
        }
        return;
    }
    let ghost start = out@;
    push_str(out, "    ");
    push_str(out, title);
    push_str(out, " (");
    push_decimal(out, items.len());
    push_str(out, "):\n");
    push_items(out, "      ", items);
    proof {
        assert(out@ =~= start + symbol_group(title@, strs(items@)));
    }
}

impl FeatureModule {
    fn push_block(&self, out: &mut String)
        ensures
            final(out)@ == old(out)@ + module_block(*self),
    {
        let ghost start = out@;
        push_str(out, "  [");
        push_str(out, self.name.as_str());
        push_str(out, "]\n");
        match &self.selected_file {
            Some(f) => {
                push_str(out, "    selected file: ");
                push_str(out, f.as_str());
                push_str(out, "\n");
            },
            None => {},
        }
        let ghost mid = out@;
        push_group(out, "functions", &self.functions);
        push_group(out, "decls", &self.decls);
        push_group(out, "vars", &self.vars);
        proof {
            assert(out@ =~= start + module_block(*self));
        }
    }
}

impl FeatureIndex {
    /// The human-readable summary of the index.
    pub fn summary_text(&self) -> (out: String)
        ensures
            out@ == index_summary(*self),
    {
        let mut out = String::new();
        push_str(&mut out, "Feature root : ");
        push_str(&mut out, self.feature_root.as_str());
        push_str(&mut out, "\n\n");
        push_str(&mut out, "Selected source files (");
        push_decimal(&mut out, self.selected_files.len());
        push_str(&mut out, "):\n");
        push_items(&mut out, "  ", &self.selected_files);
        push_str(&mut out, "\n");
        push_str(&mut out, "Modules (");
        push_decimal(&mut out, self.modules.len());
        push_str(&mut out, "):\n");
        let ghost head = out@;
        let mut i: usize = 0;
        while i < self.modules.len()
            invariant
                i <= self.modules@.len(),
                out@ == head + module_blocks(self.modules@.take(i as int)),
            decreases self.modules@.len() - i,
        {
            self.modules[i].push_block(&mut out);
            proof {
                assert(self.modules@.take(i + 1).drop_last() =~= self.modules@.take(i as int));
            }
            i = i + 1;
        }
        proof {
            assert(self.modules@.take(self.modules@.len() as int) =~= self.modules@);
            assert(out@ =~= index_summary(*self));
        }
        out
    }
}

} // verus!
