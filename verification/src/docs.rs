use vstd::prelude::*;

use crate::module::{FunctionInfo, Module};
use crate::text::push_str;
use crate::types::{ValueType, same_type, type_text};
use crate::value::Value;

verus! {

/// The documented parameters of a function from the `i`-th on: each name with its type,
/// linked, separated by `", "`; as many as there are both names and types for.
pub open spec fn params_doc(f: FunctionInfo, i: int) -> Seq<char>
    decreases f.param_names@.len() - i,
{
    let n = if f.param_names@.len() <= f.param_types@.len() { f.param_names@.len() } else { f.param_types@.len() };
    if i < 0 || i >= n {
        Seq::empty()
    } else {
        let t = type_text(f.param_types@[i]);
        let this = f.param_names@[i]@ + ": [`"@ + t + "`](./"@ + t + ")"@;
        if i == n - 1 {
            this
        } else {
            this + ", "@ + params_doc(f, i + 1)
        }
    }
}

/// Lines joined with newlines between them.
pub open spec fn joined_lines(ls: Seq<String>) -> Seq<char>
    decreases ls.len(),
{
    if ls.len() == 0 {
        Seq::empty()
    } else if ls.len() == 1 {
        ls[0]@
    } else {
        joined_lines(ls.drop_last()) + "\n"@ + ls.last()@
    }
}

/// The documentation entry of a function: its name as a linked heading, its parameters,
/// its return type, then its documentation.
pub open spec fn entry_text(f: FunctionInfo) -> Seq<char> {
    "### ["@ + f.name@ + "](#"@ + f.name@ + ") ("@ + params_doc(f, 0) + ")"@ + match f.return_type {
        Some(t) => " -> [`"@ + type_text(t) + "`](./"@ + type_text(t) + ")"@,
        None => Seq::empty(),
    } + "\n"@ + joined_lines(f.doc_comments@) + "\n"@
}

/// The documentation entry of a native function.
pub fn get_function_entry(info: &FunctionInfo) -> (s: String)
    ensures
        s@ == entry_text(*info),
{
    let n = if info.param_names.len() <= info.param_types.len() {
        info.param_names.len()
    } else {
        info.param_types.len()
    };
    // The parameters, built from the last one back.
    let mut params = String::new();
    let mut i: usize = n;
    assert(params@ =~= params_doc(*info, n as int));
    while i > 0
        invariant
            i <= n,
            n == (if info.param_names@.len() <= info.param_types@.len() { info.param_names@.len() } else { info.param_types@.len() }),
            params@ == params_doc(*info, i as int),
        decreases i,
    {
        i = i - 1;
        let t = info.param_types[i].display();
        let mut this = info.param_names[i].clone();
        push_str(&mut this, ": [`");
        push_str(&mut this, t.as_str());
        push_str(&mut this, "`](./");
        push_str(&mut this, t.as_str());
        push_str(&mut this, ")");
        if i + 1 < n {
            push_str(&mut this, ", ");
            push_str(&mut this, params.as_str());
        }
        params = this;
    }
    let mut comments = String::new();
    let mut k: usize = 0;
    assert(comments@ =~= Seq::<char>::empty());
    while k < info.doc_comments.len()
        invariant
            k <= info.doc_comments@.len(),
            comments@ == joined_lines(info.doc_comments@.take(k as int)),
        decreases info.doc_comments.len() - k,
    {
        proof {
            assert(info.doc_comments@.take(k + 1).drop_last() =~= info.doc_comments@.take(k as int));
            if k == 0 {
                assert(info.doc_comments@.take(0) =~= Seq::<String>::empty());
            }
        }
        if k > 0 {
            push_str(&mut comments, "\n");
        }
        push_str(&mut comments, info.doc_comments[k].as_str());
        k = k + 1;
    }
    assert(info.doc_comments@.take(info.doc_comments@.len() as int) =~= info.doc_comments@);
    let mut s = String::new();
    assert(s@ =~= Seq::<char>::empty());
    push_str(&mut s, "### [");
    push_str(&mut s, info.name.as_str());
    push_str(&mut s, "](#");
    push_str(&mut s, info.name.as_str());
    push_str(&mut s, ") (");
    push_str(&mut s, params.as_str());
    push_str(&mut s, ")");
    match &info.return_type {
        Some(t) => {
            let rt = t.display();
            push_str(&mut s, " -> [`");
            push_str(&mut s, rt.as_str());
            push_str(&mut s, "`](./");
            push_str(&mut s, rt.as_str());
            push_str(&mut s, ")");
        },
        None => {},
    }
    push_str(&mut s, "\n");
    push_str(&mut s, comments.as_str());
    push_str(&mut s, "\n");
    s
}

} // verus!

verus! {

/// The names of the globals of type `t`, a line each.
pub open spec fn global_lines(gs: Seq<(String, ValueType, Value)>, t: ValueType) -> Seq<char>
    decreases gs.len(),
{
    if gs.len() == 0 {
        Seq::empty()
    } else {
        global_lines(gs.drop_last(), t) + if same_type(gs.last().1, t) { gs.last().0@ + "\n"@ } else { Seq::empty() }
    }
}

/// The entries of the functions that give a `t`, each followed by a newline.
pub open spec fn function_lines(fs: Seq<FunctionInfo>, t: ValueType) -> Seq<char>
    decreases fs.len(),
{
    if fs.len() == 0 {
        Seq::empty()
    } else {
        function_lines(fs.drop_last(), t) + if fs.last().return_type matches Some(r) && same_type(r, t) {
            entry_text(fs.last()) + "\n"@
        } else {
            Seq::empty()
        }
    }
}

/// The entries of the methods whose first parameter is a `t`.
pub open spec fn method_lines(ms: Seq<(ValueType, FunctionInfo)>, t: ValueType) -> Seq<char>
    decreases ms.len(),
{
    if ms.len() == 0 {
        Seq::empty()
    } else {
        method_lines(ms.drop_last(), t) + if ms.last().1.param_types@.len() > 0 && same_type(
            ms.last().1.param_types@[0],
            t,
        ) {
            entry_text(ms.last().1)
        } else {
            Seq::empty()
        }
    }
}

/// The document of a named type: a linked heading, a placeholder description, the
/// globals of the type, the functions that give it, and the methods on it.
#[verifier::opaque]
pub open spec fn type_document(m: Module, name: Seq<char>, t: ValueType) -> Seq<char> {
    "# ["@ + name + "](#"@ + name + ")\n"@ + "TODO: Type value description\n"@ + global_lines(m.global_entries(), t)
        + "## Functions\n"@ + function_lines(m.function_entries(), t) + "## Methods\n"@ + method_lines(
        m.method_entries(),
        t,
    )
}

/// The document of one named type.
fn document(module: &Module, name: &String, t: &ValueType) -> (s: String)
    ensures
        s@ == type_document(*module, name@, *t),
{
    let mut s = String::new();
    assert(s@ =~= Seq::<char>::empty());
    push_str(&mut s, "# [");
    push_str(&mut s, name.as_str());
    push_str(&mut s, "](#");
    push_str(&mut s, name.as_str());
    push_str(&mut s, ")\n");
    push_str(&mut s, "TODO: Type value description\n");
    let globals = module.globals();
    let mut i: usize = 0;
    let ghost start = s@;
    assert(globals@.take(0) =~= Seq::<(String, ValueType, Value)>::empty());
    while i < globals.len()
        invariant
            i <= globals@.len(),
            s@ == start + global_lines(globals@.take(i as int), *t),
        decreases globals.len() - i,
    {
        proof {
            assert(globals@.take(i + 1).drop_last() =~= globals@.take(i as int));
        }
        if globals[i].1.same(t) {
            push_str(&mut s, globals[i].0.as_str());
            push_str(&mut s, "\n");
        }
        i = i + 1;
    }
    assert(globals@.take(globals@.len() as int) =~= globals@);
    push_str(&mut s, "## Functions\n");
    let functions = module.functions();
    let ghost start = s@;
    let mut i: usize = 0;
    assert(functions@.take(0) =~= Seq::<FunctionInfo>::empty());
    while i < functions.len()
        invariant
            i <= functions@.len(),
            s@ == start + function_lines(functions@.take(i as int), *t),
        decreases functions.len() - i,
    {
        proof {
            assert(functions@.take(i + 1).drop_last() =~= functions@.take(i as int));
        }
        let gives = match &functions[i].return_type {
            Some(r) => r.same(t),
            None => false,
        };
        if gives {
            push_str(&mut s, get_function_entry(&functions[i]).as_str());
            push_str(&mut s, "\n");
        }
        i = i + 1;
    }
    assert(functions@.take(functions@.len() as int) =~= functions@);
    push_str(&mut s, "## Methods\n");
    let methods = module.methods();
    let ghost start = s@;
    let mut i: usize = 0;
    assert(methods@.take(0) =~= Seq::<(ValueType, FunctionInfo)>::empty());
    while i < methods.len()
        invariant
            i <= methods@.len(),
            s@ == start + method_lines(methods@.take(i as int), *t),
        decreases methods.len() - i,
    {
        proof {
            assert(methods@.take(i + 1).drop_last() =~= methods@.take(i as int));
        }
        let on = methods[i].1.param_types.len() > 0 && methods[i].1.param_types[0].same(t);
        if on {
            push_str(&mut s, get_function_entry(&methods[i].1).as_str());
        }
        i = i + 1;
    }
    assert(methods@.take(methods@.len() as int) =~= methods@);
    proof {
        reveal(type_document);
    }
    s
}

/// The document name of a type: its name with `.md` after it.
pub open spec fn document_name(name: Seq<char>) -> Seq<char> {
    name + ".md"@
}

/// Whether entry `k` of `entries` is the last one named `name` among the first `n`.
pub open spec fn last_named(entries: Seq<(String, ValueType)>, k: int, n: int, name: Seq<char>) -> bool {
    &&& 0 <= k < n <= entries.len()
    &&& entries[k].0@ == name
    &&& forall|j: int| k < j < n ==> (#[trigger] entries[j]).0@ != name
}

/// Some document is named for a type name.
pub open spec fn has_document(docs: Seq<(String, String)>, name: Seq<char>) -> bool {
    exists|i: int| 0 <= i < docs.len() && docs[i].0@ == document_name(name)
}

/// A document is that of the type registered last under some name among the first `n`
/// entries.
pub open spec fn documented(m: Module, entries: Seq<(String, ValueType)>, n: int, d: (String, String)) -> bool {
    exists|k: int|
        last_named(entries, k, n, #[trigger] entries[k].0@) && d.0@ == document_name(entries[k].0@) && d.1@
            == type_document(m, entries[k].0@, entries[k].1)
}

/// Puts a document in place of the one of the same name, or after the others.
fn insert_doc(docs: &mut Vec<(String, String)>, name: String, text: String)
    requires
        forall|i: int, j: int| 0 <= i < j < old(docs)@.len() ==> old(docs)@[i].0@ != old(docs)@[j].0@,
    ensures
        forall|i: int, j: int| 0 <= i < j < final(docs)@.len() ==> final(docs)@[i].0@ != final(docs)@[j].0@,
        final(docs)@.len() >= old(docs)@.len(),
        exists|f: int| 0 <= f < final(docs)@.len() && final(docs)@[f] == (name, text),
        forall|i: int|
            0 <= i < final(docs)@.len() ==> final(docs)@[i] == (name, text) || (i < old(docs)@.len()
                && final(docs)@[i] == old(docs)@[i] && old(docs)@[i].0@ != name@),
        forall|i: int| 0 <= i < old(docs)@.len() && old(docs)@[i].0@ != name@ ==> final(docs)@[i] == old(docs)@[i],
{
    let mut found: Option<usize> = None;
    let mut i: usize = 0;
    while i < docs.len()
        invariant
            i <= docs@.len(),
            found matches Some(f) ==> f < docs@.len() && docs@[f as int].0@ == name@,
            found is None ==> forall|j: int| 0 <= j < i ==> docs@[j].0@ != name@,
        decreases docs.len() - i,
    {
        if found.is_none() && docs[i].0 == name {
            found = Some(i);
        }
        i = i + 1;
    }
    let ghost before = docs@;
    match found {
        Some(f) => {
            docs.set(f, (name, text));
            assert(docs@[f as int] == (name, text));
        },
        None => {
            docs.push((name, text));
            assert(docs@[before.len() as int] == (name, text));
        },
    }
}

/// The documentation of everything a module offers scripts/// The documentation of everything a module offers scripts: one document for each named
/// type, under the type's name with `.md` after it. Where names repeat, the type
/// registered last under the name is documented.
pub fn generate_docs(module: &Module) -> (docs: Vec<(String, String)>)
    ensures
        forall|i: int, j: int| 0 <= i < j < docs@.len() ==> docs@[i].0@ != docs@[j].0@,
        forall|i: int|
            0 <= i < docs@.len() ==> documented(*module, module.type_entries(), module.type_entries().len() as int, #[trigger] docs@[i]),
        forall|k: int| 0 <= k < module.type_entries().len() ==> has_document(docs@, #[trigger] module.type_entries()[k].0@),
{
    let types = module.types();
    let mut docs: Vec<(String, String)> = Vec::new();
    let mut k: usize = 0;
    proof {
        reveal_strlit(".md");
    }
    while k < types.len()
        invariant
            types@ == module.type_entries(),
            k <= types@.len(),
            forall|i: int, j: int| 0 <= i < j < docs@.len() ==> docs@[i].0@ != docs@[j].0@,
            forall|i: int| 0 <= i < docs@.len() ==> documented(*module, types@, k as int, #[trigger] docs@[i]),
            forall|m: int| 0 <= m < k ==> has_document(docs@, #[trigger] types@[m].0@),
        decreases types.len() - k,
    {
        let mut name = types[k].0.clone();
        push_str(&mut name, ".md");
        let text = document(module, &types[k].0, &types[k].1);
        let ghost before = docs@;
        let ghost entry = (name, text);
        insert_doc(&mut docs, name, text);
        proof {
            assert(last_named(types@, k as int, k + 1, types@[k as int].0@));
            assert forall|i: int| 0 <= i < docs@.len() implies documented(*module, types@, k + 1, #[trigger] docs@[i]) by {
                if docs@[i] == entry {
                    assert(last_named(types@, k as int, k + 1, types@[k as int].0@));
                } else {
                    assert(documented(*module, types@, k as int, before[i]));
                    let m = choose|m: int|
                        last_named(types@, m, k as int, #[trigger] types@[m].0@) && before[i].0@ == document_name(types@[m].0@)
                            && before[i].1@ == type_document(*module, types@[m].0@, types@[m].1);
                    assert(types@[m].0@ != types@[k as int].0@) by {
                        if types@[m].0@ == types@[k as int].0@ {
                            assert(before[i].0@ == entry.0@);
                        }
                    }
                    assert(last_named(types@, m, k + 1, types@[m].0@));
                }
            }
            assert forall|m: int| 0 <= m < k + 1 implies has_document(docs@, #[trigger] types@[m].0@) by {
                if m < k {
                    assert(has_document(before, types@[m].0@));
                    let i = choose|i: int| 0 <= i < before.len() && before[i].0@ == document_name(types@[m].0@);
                    if before[i].0@ != entry.0@ {
                        assert(docs@[i] == before[i]);
                    } else {
                        let f = choose|f: int| 0 <= f < docs@.len() && docs@[f] == entry;
                        assert(docs@[f].0@ == document_name(types@[m].0@));
                    }
                } else {
                    let f = choose|f: int| 0 <= f < docs@.len() && docs@[f] == entry;
                    assert(docs@[f].0@ == document_name(types@[m].0@));
                }
            }
        }
        k = k + 1;
    }
    docs
}

} // verus!
