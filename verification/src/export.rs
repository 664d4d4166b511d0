//! The text of the bindings that are written for the window's code.

use vstd::prelude::*;

use crate::text::{append, joined};

verus! {

/// A handler of procedures: the path under which it is reached, and its
/// name.
#[derive(Debug, Clone)]
pub struct Handler {
    pub path: String,
    pub name: String,
}

/// One line of the type of the router.
pub open spec fn router_line(path: Seq<char>, name: Seq<char>) -> Seq<char> {
    "\t'"@ + path + "': [TauRpc"@ + name + "InputTypes, TauRpc"@ + name + "OutputTypes],\n"@
}

pub open spec fn router_lines(handlers: Seq<Handler>) -> Seq<char>
    decreases handlers.len(),
{
    if handlers.len() == 0 {
        Seq::empty()
    } else {
        router_lines(handlers.drop_last()) + router_line(
            handlers.last().path@,
            handlers.last().name@,
        )
    }
}

/// The type of the router: one line for each handler, in order.
pub open spec fn router_type(handlers: Seq<Handler>) -> Seq<char> {
    "\ntype Router = {\n"@ + router_lines(handlers) + "}"@
}

pub fn generate_router_type(handlers: &Vec<Handler>) -> (output: String)
    ensures
        output@ == router_type(handlers@),
{
    let mut output = "\ntype Router = {\n".to_string();
    let mut i: usize = 0;
    assert(handlers@.take(0) =~= Seq::empty());
    while i < handlers.len()
        invariant
            i <= handlers.len(),
            output@ == "\ntype Router = {\n"@ + router_lines(handlers@.take(i as int)),
        decreases handlers.len() - i,
    {
        let handler = &handlers[i];
        proof {
            assert(handlers@.take(i + 1).drop_last() =~= handlers@.take(i as int));
            assert(handlers@.take(i + 1).last() == handlers[i as int]);
        }
        let ghost before = output@;
        append(&mut output, "\t'");
        append(&mut output, handler.path.as_str());
        append(&mut output, "': [TauRpc");
        append(&mut output, handler.name.as_str());
        append(&mut output, "InputTypes, TauRpc");
        append(&mut output, handler.name.as_str());
        append(&mut output, "OutputTypes],\n");
        assert(output@ =~= before + router_line(handler.path@, handler.name@));
        assert(output@ =~= "\ntype Router = {\n"@ + router_lines(handlers@.take(i + 1)));
        i += 1;
    }
    assert(handlers@.take(handlers.len() as int) =~= handlers@);
    append(&mut output, "}");
    output
}

/// The texts `parts`, one after the other, with `separator` between each
/// two.
pub open spec fn separated(parts: Seq<Seq<char>>, separator: Seq<char>) -> Seq<char>
    decreases parts.len(),
{
    if parts.len() == 0 {
        Seq::empty()
    } else if parts.len() == 1 {
        parts[0]
    } else {
        separated(parts.drop_last(), separator) + separator + parts.last()
    }
}

/// The texts in one text, in order, `separator` between each two.
pub fn join(parts: &Vec<String>, separator: &str) -> (all: String)
    ensures
        all@ == separated(crate::text_map::texts(parts@), separator@),
{
    let ghost texts = crate::text_map::texts(parts@);
    let mut all = String::new();
    assert(texts.take(0) =~= Seq::empty());
    let mut i: usize = 0;
    while i < parts.len()
        invariant
            i <= parts.len(),
            texts == crate::text_map::texts(parts@),
            all@ == separated(texts.take(i as int), separator@),
        decreases parts.len() - i,
    {
        proof {
            assert(texts.take(i + 1).drop_last() =~= texts.take(i as int));
            assert(texts.take(i + 1).last() == parts[i as int]@);
            assert(texts.take(i + 1)[0] == texts[0]);
        }
        if i > 0 {
            append(&mut all, separator);
        }
        append(&mut all, parts[i].as_str());
        assert(all@ =~= separated(texts.take(i + 1), separator@));
        i += 1;
    }
    assert(texts.take(parts.len() as int) =~= texts);
    all
}

pub open spec fn entry_text(name: Seq<char>, kind: Seq<char>) -> Seq<char> {
    "'"@ + name + "':'"@ + kind + "'"@
}

pub open spec fn entry_texts(args: Seq<(String, String)>) -> Seq<Seq<char>> {
    args.map_values(|entry: (String, String)| entry_text(entry.0@, entry.1@))
}

/// The map of the arguments as it is written: every entry of `args`, in
/// order, between braces.
pub fn router_args(args: &Vec<(String, String)>) -> (text: String)
    ensures
        text@ == "{"@ + separated(entry_texts(args@), ", "@) + "}"@,
{
    let mut entries: Vec<String> = Vec::new();
    let mut i: usize = 0;
    while i < args.len()
        invariant
            i <= args.len(),
            entries.len() == i,
            forall|j: int|
                0 <= j < i ==> (#[trigger] entries[j])@ == entry_text(args[j].0@, args[j].1@),
        decreases args.len() - i,
    {
        let mut entry = joined("'", args[i].0.as_str());
        append(&mut entry, "':'");
        append(&mut entry, args[i].1.as_str());
        append(&mut entry, "'");
        entries.push(entry);
        i += 1;
    }
    assert(crate::text_map::texts(entries@) =~= entry_texts(args@));
    let entries_text = join(&entries, ", ");
    let mut text = joined("{", entries_text.as_str());
    append(&mut text, "}");
    text
}

} // verus!
