//! Rendering of a list of items, one line for each item that has any text.

use vstd::prelude::*;
use vstd::string::StringExecFns;

verus! {

/// An item with a textual form.
pub trait Render {
    /// Whether the item has a textual form at all.
    spec fn renders(&self) -> bool;

    /// The text that the item renders to.
    spec fn text(&self) -> Seq<char>;

    /// The item's text as a string.
    fn to_string(&self) -> (out: String)
        requires
            self.renders(),
        ensures
            out@ == self.text(),
    ;
}

/// The texts of `items`, in order.
pub open spec fn texts<T: Render>(items: Seq<T>) -> Seq<Seq<char>> {
    items.map_values(|item: T| item.text())
}

/// `parts` in order, with `separator` between each two neighbours.
pub open spec fn joined(parts: Seq<Seq<char>>, separator: Seq<char>) -> Seq<char>
    decreases parts.len(),
{
    if parts.len() == 0 {
        Seq::empty()
    } else if parts.len() == 1 {
        parts[0]
    } else {
        joined(parts.drop_last(), separator) + separator + parts.last()
    }
}

/// The texts of `lines` that are not empty, in order, with a line feed
/// between each two of them.
pub open spec fn list_text(lines: Seq<Seq<char>>) -> Seq<char> {
    joined(lines.filter(|line: Seq<char>| line.len() > 0), seq!['\n'])
}

/// Renders `elements` one per line. An element whose text is empty gets no
/// line.
pub fn format_list<T: Render>(elements: &[T]) -> (out: String)
    requires
        forall|i: int| 0 <= i < elements@.len() ==> elements@[i].renders(),
    ensures
        out@ == list_text(texts(elements@)),
{
    let ghost lines = texts(elements@);
    let ghost keep = |line: Seq<char>| line.len() > 0;
    let mut out = String::new();
    let mut first: bool = true;
    let mut i: usize = 0;
    proof {
        reveal(Seq::filter);
        assert(lines.take(0).filter(keep) =~= Seq::<Seq<char>>::empty());
    }
    while i < elements.len()
        invariant
            i <= elements@.len(),
            lines == texts(elements@),
            keep == |line: Seq<char>| line.len() > 0,
            forall|i: int| 0 <= i < elements@.len() ==> elements@[i].renders(),
            first == (lines.take(i as int).filter(keep).len() == 0),
            out@ == joined(lines.take(i as int).filter(keep), seq!['\n']),
        decreases elements@.len() - i,
    {
        let ghost kept = lines.take(i as int).filter(keep);
        let item = elements[i].to_string();
        proof {
            reveal(Seq::filter);
            assert(lines.take(i + 1).drop_last() =~= lines.take(i as int));
            assert(lines.take(i + 1).last() == item@);
        }
        if !item.as_str().is_empty() {
            if !first {
                out.push('\n');
            }
            out.append(item.as_str());
            first = false;
            proof {
                assert(kept.push(item@).drop_last() =~= kept);
                assert(out@ =~= joined(kept.push(item@), seq!['\n']));
            }
        }
        i += 1;
    }
    proof {
        assert(lines.take(i as int) =~= lines);
    }
    out
}

} // verus!
