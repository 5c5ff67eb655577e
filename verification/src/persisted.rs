use vstd::prelude::*;
use crate::lex::views;
use crate::scan::{push_char, split, split_on};
use crate::text::{chars_of, same_text};

verus! {

/// The texts one after the other, with `sep` between each two.
pub open spec fn join_with(items: Seq<Seq<char>>, sep: char) -> Seq<char>
    decreases items.len(),
{
    if items.len() == 0 {
        Seq::empty()
    } else if items.len() == 1 {
        items[0]
    } else {
        join_with(items.drop_last(), sep).push(sep) + items.last()
    }
}

/// A list of names as it is persisted: the names with a bar between each two, or
/// `none` for no names.
pub open spec fn joined(items: Seq<Seq<char>>) -> Seq<char> {
    if items.len() == 0 {
        "none"@
    } else {
        join_with(items, '|')
    }
}

/// The names that a persisted list holds: none for the empty text and for `none`,
/// else what stands between the bars.
pub open spec fn parted(text: Seq<char>) -> Seq<Seq<char>> {
    if text.len() == 0 || text == "none"@ {
        Seq::empty()
    } else {
        split_on(text, '|')
    }
}

/// Writes a list of names as it is persisted.
pub fn join_names(items: &Vec<String>) -> (r: String)
    ensures
        r@ == joined(views(items@)),
{
    if items.len() == 0 {
        return "none".to_owned();
    }
    let ghost all = views(items@);
    let mut r = items[0].clone();
    let mut i: usize = 1;
    assert(all.take(1) =~= seq![all[0]]);
    while i < items.len()
        invariant
            1 <= i <= items.len(),
            all == views(items@),
            r@ == join_with(all.take(i as int), '|'),
        decreases items.len() - i,
    {
        proof {
            assert(all.take(i + 1).drop_last() =~= all.take(i as int));
            assert(all.take(i + 1).last() == items[i as int]@);
        }
        push_char(&mut r, '|');
        r.append(items[i].as_str());
        i = i + 1;
    }
    assert(all.take(i as int) =~= all);
    r
}

/// Reads the names that a persisted list holds.
pub fn part_names(text: &str) -> (r: Vec<String>)
    ensures
        views(r@) == parted(text@),
{
    let v = chars_of(text);
    if v.len() == 0 || same_text(text, "none") {
        let r: Vec<String> = Vec::new();
        assert(views(r@) =~= Seq::empty());
        return r;
    }
    split(text, '|')
}

/// Cutting a text that ends in a run without separator gives the pieces of what
/// stands before the run, the last of them longer by the run.
pub proof fn lemma_split_run(s: Seq<char>, t: Seq<char>, sep: char)
    requires
        !t.contains(sep),
    ensures
        split_on(s + t, sep) == split_on(s, sep).drop_last().push(split_on(s, sep).last() + t),
    decreases t.len(),
{
    crate::scan::lemma_split_len(s, sep);
    let pieces = split_on(s, sep);
    if t.len() == 0 {
        assert(s + t =~= s);
        assert(pieces.last() + t =~= pieces.last());
        assert(pieces.drop_last().push(pieces.last()) =~= pieces);
    } else {
        let shorter = t.drop_last();
        assert(!shorter.contains(sep)) by {
            if shorter.contains(sep) {
                let i = choose|i: int| 0 <= i < shorter.len() && shorter[i] == sep;
                assert(t[i] == sep);
            }
        }
        assert(t.last() != sep) by {
            assert(t[t.len() - 1] == t.last());
        }
        lemma_split_run(s, shorter, sep);
        assert((s + t).drop_last() =~= s + shorter);
        assert((s + t).last() == t.last());
        let before = split_on(s + shorter, sep);
        assert(before.last() == pieces.last() + shorter);
        assert(before.drop_last() =~= pieces.drop_last());
        assert((pieces.last() + shorter).push(t.last()) =~= pieces.last() + t);
    }
}

/// Names without a bar, joined by bars and cut at the bars again, are the names.
pub proof fn lemma_split_join(items: Seq<Seq<char>>)
    requires
        items.len() > 0,
        forall|i: int| 0 <= i < items.len() ==> !(#[trigger] items[i]).contains('|'),
    ensures
        split_on(join_with(items, '|'), '|') == items,
    decreases items.len(),
{
    let none = Seq::<char>::empty();
    if items.len() == 1 {
        lemma_split_run(none, items[0], '|');
        assert(none + items[0] =~= items[0]);
        assert(split_on(none, '|') =~= seq![none]);
        assert(seq![none].drop_last().push(none + items[0]) =~= items);
    } else {
        let front = items.drop_last();
        assert forall|i: int| 0 <= i < front.len() implies !(#[trigger] front[i]).contains(
            '|',
        ) by {
            assert(front[i] == items[i]);
        }
        lemma_split_join(front);
        let head = join_with(front, '|').push('|');
        assert(head.drop_last() =~= join_with(front, '|'));
        assert(split_on(head, '|') == front.push(none));
        assert(items[items.len() - 1] == items.last());
        lemma_split_run(head, items.last(), '|');
        assert(front.push(none).drop_last().push(none + items.last()) =~= items);
    }
}

/// What was written of a list of names reads back as the list, where no name holds a
/// bar and the list is neither the empty name alone nor the name `none` alone.
pub proof fn lemma_parted_joined(items: Seq<Seq<char>>)
    requires
        forall|i: int| 0 <= i < items.len() ==> !(#[trigger] items[i]).contains('|'),
        items != seq![Seq::<char>::empty()],
        items != seq!["none"@],
    ensures
        parted(joined(items)) == items,
{
    reveal_strlit("none");
    if items.len() == 0 {
        assert(items =~= Seq::empty());
    } else {
        lemma_split_join(items);
        let text = join_with(items, '|');
        if items.len() == 1 {
            assert(items =~= seq![items[0]]);
        } else {
            let last = text.len() - items.last().len() - 1;
            assert(text[last] == '|');
            if text == "none"@ {
                assert("none"@[last] == '|');
            }
        }
    }
}

/// The name of a category as it stands in the names of the persisted counters: with
/// underscores for hyphens, and `office365` for `office-365`.
pub open spec fn field_name(category: Seq<char>) -> Seq<char> {
    if category == "office-365"@ {
        "office365"@
    } else {
        category.map_values(
            |c: char|
                if c == '-' {
                    '_'
                } else {
                    c
                },
        )
    }
}

/// The name of a persisted counter: what it holds (`count` or `percent`), of what
/// (`techniques` or `subtechniques`), and for which category.
pub open spec fn counter_field(kind: Seq<char>, what: Seq<char>, category: Seq<char>) -> Seq<char> {
    kind.push('_') + what.push('_') + field_name(category)
}

/// The name of a category as it stands in the names of the persisted counters.
pub fn category_field(category: &str) -> (r: String)
    ensures
        r@ == field_name(category@),
{
    if same_text(category, "office-365") {
        return "office365".to_owned();
    }
    let v = chars_of(category);
    let ghost want = field_name(category@);
    let mut r = String::new();
    let mut i: usize = 0;
    while i < v.len()
        invariant
            i <= v.len(),
            v@ == category@,
            want == field_name(category@),
            category@ != "office-365"@,
            r@ == want.take(i as int),
        decreases v.len() - i,
    {
        if v[i] == '-' {
            push_char(&mut r, '_');
        } else {
            push_char(&mut r, v[i]);
        }
        i = i + 1;
        assert(r@ =~= want.take(i as int));
    }
    assert(want.take(i as int) =~= want);
    r
}

/// The name of a persisted counter.
pub fn counter_name(kind: &str, what: &str, category: &str) -> (r: String)
    ensures
        r@ == counter_field(kind@, what@, category@),
{
    let mut r = kind.to_owned();
    push_char(&mut r, '_');
    r.append(what);
    push_char(&mut r, '_');
    let name = category_field(category);
    r.append(name.as_str());
    assert(r@ =~= counter_field(kind@, what@, category@));
    r
}

} // verus!
