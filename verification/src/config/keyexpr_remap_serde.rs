//! Remap tables as they stand in a configuration file: each key stands for a text or for a list of
//! texts.
use vstd::prelude::*;

use crate::device_filter::{
    expr_text, expressible, parse_undoes_to_string, parsed_expr, KeyExpr, KeyExprView,
};
use crate::table::Table;
use crate::text::strings;

verus! {

/// A value in a remap table.
#[derive(Debug, PartialEq)]
pub enum RemapValue {
    Text(String),
    /// A list; an element that is no text is `None`.
    List(Vec<Option<String>>),
    /// Anything else.
    Other,
}

/// What a remap value holds.
pub enum RemapValueView {
    Text(Seq<char>),
    List(Seq<Option<Seq<char>>>),
    Other,
}

/// The texts of a list of optional strings.
pub open spec fn optional_texts(list: Seq<Option<String>>) -> Seq<Option<Seq<char>>> {
    Seq::new(
        list.len(),
        |i: int|
            match list[i] {
                Some(s) => Some(s@),
                None => None,
            },
    )
}

impl View for RemapValue {
    type V = RemapValueView;

    open spec fn view(&self) -> RemapValueView {
        match self {
            RemapValue::Text(s) => RemapValueView::Text(s@),
            RemapValue::List(list) => RemapValueView::List(optional_texts(list@)),
            RemapValue::Other => RemapValueView::Other,
        }
    }
}

/// The texts in a list that are not empty.
pub open spec fn listed_keys(list: Seq<Option<Seq<char>>>) -> Seq<Seq<char>>
    decreases list.len(),
{
    if list.len() == 0 {
        Seq::empty()
    } else {
        let before = listed_keys(list.drop_last());
        match list.last() {
            Some(s) => if s.len() > 0 {
                before.push(s)
            } else {
                before
            },
            None => before,
        }
    }
}

/// The expression that a value denotes. A list of one key is that key; any other list is a combo.
pub open spec fn value_expr(value: RemapValueView) -> Option<KeyExprView> {
    match value {
        RemapValueView::Text(s) => Some(parsed_expr(s)),
        RemapValueView::List(list) => {
            let keys = listed_keys(list);
            if keys.len() == 1 {
                Some(KeyExprView::Single(keys[0]))
            } else {
                Some(KeyExprView::Combo(keys))
            }
        },
        RemapValueView::Other => None,
    }
}

/// The value that an expression is written as: a combo as a list, anything else as its text.
pub open spec fn expr_value(expr: KeyExprView) -> RemapValueView {
    match expr {
        KeyExprView::Combo(keys) => RemapValueView::List(
            Seq::new(keys.len(), |i: int| Some(keys[i])),
        ),
        _ => RemapValueView::Text(expr_text(expr)),
    }
}

/// The expressions of a remap table.
pub open spec fn exprs(remap: Map<Seq<char>, KeyExpr>) -> Map<Seq<char>, KeyExprView> {
    Map::new(|k: Seq<char>| remap.contains_key(k), |k: Seq<char>| remap[k]@)
}

/// The remap table that a list of entries denotes, if every value denotes an expression. Of two
/// entries for the same key the later one counts.
pub open spec fn entries_remap(entries: Seq<(String, RemapValue)>) -> Option<
    Map<Seq<char>, KeyExprView>,
>
    decreases entries.len(),
{
    if entries.len() == 0 {
        Some(Map::empty())
    } else {
        match (entries_remap(entries.drop_last()), value_expr(entries.last().1@)) {
            (Some(before), Some(expr)) => Some(before.insert(entries.last().0@, expr)),
            _ => None,
        }
    }
}

/// The keys of a list that are not empty.
fn kept_keys(list: &Vec<Option<String>>) -> (r: Vec<String>)
    ensures
        strings(r@) == listed_keys(optional_texts(list@)),
{
    let mut r: Vec<String> = Vec::new();
    let ghost all = optional_texts(list@);
    let mut i: usize = 0;
    assert(all.take(0) =~= Seq::empty());
    assert(strings(r@) =~= Seq::empty());
    while i < list.len()
        invariant
            i <= list.len(),
            all == optional_texts(list@),
            strings(r@) == listed_keys(all.take(i as int)),
        decreases list.len() - i,
    {
        let ghost before = strings(r@);
        assert(all.take(i + 1).drop_last() =~= all.take(i as int));
        assert(all.take(i + 1).last() == all[i as int]);
        if let Some(s) = &list[i] {
            if !s.as_str().is_empty() {
                r.push(s.clone());
                assert(strings(r@) =~= before.push(s@));
            }
        }
        i = i + 1;
    }
    assert(all.take(i as int) =~= all);
    r
}

/// The expression that a value denotes.
pub fn expr_of_value(value: &RemapValue) -> (r: Option<KeyExpr>)
    ensures
        match r {
            Some(expr) => value_expr(value@) == Some(expr@),
            None => value_expr(value@) is None,
        },
{
    match value {
        RemapValue::Text(s) => Some(KeyExpr::parse(s.as_str())),
        RemapValue::List(list) => {
            let keys = kept_keys(list);
            if keys.len() == 1 {
                assert(strings(keys@)[0] == keys@[0]@);
                Some(KeyExpr::Single(keys[0].clone()))
            } else {
                Some(KeyExpr::Combo(keys))
            }
        },
        RemapValue::Other => None,
    }
}

/// The value that an expression is written as.
pub fn value_of_expr(expr: &KeyExpr) -> (r: RemapValue)
    ensures
        r@ == expr_value(expr@),
{
    match expr {
        KeyExpr::Combo(keys) => {
            let mut list: Vec<Option<String>> = Vec::new();
            let mut i: usize = 0;
            while i < keys.len()
                invariant
                    i <= keys.len(),
                    list.len() == i,
                    forall|j: int| 0 <= j < i ==> (#[trigger] list@[j]) == Some(keys@[j]),
                decreases keys.len() - i,
            {
                list.push(Some(keys[i].clone()));
                i = i + 1;
            }
            let r = RemapValue::List(list);
            assert(optional_texts(list@) =~= expr_value(expr@)->List_0);
            r
        },
        _ => RemapValue::Text(expr.to_string()),
    }
}

/// The remap table that a list of entries denotes.
pub fn deserialize(entries: &Vec<(String, RemapValue)>) -> (r: Result<Table<KeyExpr>, String>)
    ensures
        match r {
            Ok(table) => entries_remap(entries@) == Some(exprs(table@)),
            Err(message) => entries_remap(entries@) is None && message@
                == "Invalid value for KeyExpr"@,
        },
{
    let mut table: Table<KeyExpr> = Table::new();
    let mut i: usize = 0;
    assert(entries@.take(0) =~= Seq::empty());
    assert(exprs(table@) =~= Map::empty());
    while i < entries.len()
        invariant
            i <= entries.len(),
            entries_remap(entries@.take(i as int)) == Some(exprs(table@)),
        decreases entries.len() - i,
    {
        proof {
            assert(entries@.take(i + 1).drop_last() =~= entries@.take(i as int));
            assert(entries@.take(i + 1).last() == entries@[i as int]);
        }
        match expr_of_value(&entries[i].1) {
            Some(expr) => {
                let ghost before = table@;
                let name = entries[i].0.clone();
                table.insert(name, expr);
                assert(exprs(table@) =~= exprs(before).insert(name@, expr@));
            },
            None => {
                proof {
                    lemma_bad_entry(entries@, i + 1);
                }
                return Err("Invalid value for KeyExpr".to_owned());
            },
        }
        i = i + 1;
    }
    assert(entries@.take(i as int) =~= entries@);
    Ok(table)
}

proof fn lemma_bad_entry(entries: Seq<(String, RemapValue)>, n: int)
    requires
        0 <= n <= entries.len(),
        entries_remap(entries.take(n)) is None,
    ensures
        entries_remap(entries) is None,
    decreases entries.len() - n,
{
    if n == entries.len() {
        assert(entries.take(n) =~= entries);
    } else {
        assert(entries.take(n + 1).drop_last() =~= entries.take(n));
        lemma_bad_entry(entries, n + 1);
    }
}

/// The entries that a remap table is written as: one for each key.
pub fn serialize(table: &Table<KeyExpr>) -> (r: Vec<(String, RemapValue)>)
    ensures
        r@.len() == table.names().len(),
        forall|i: int|
            0 <= i < r@.len() ==> (#[trigger] r@[i]).0@ == table.names()[i] && r@[i].1@
                == expr_value(table@[table.names()[i]]@),
        table.names().no_duplicates(),
        table@.dom() == table.names().to_set(),
{
    let mut r: Vec<(String, RemapValue)> = Vec::new();
    let n: usize = table.len();
    let mut i: usize = 0;
    while i < n
        invariant
            i <= n,
            n == table.names().len(),
            r@.len() == i,
            forall|j: int|
                0 <= j < i ==> (#[trigger] r@[j]).0@ == table.names()[j] && r@[j].1@ == expr_value(
                    table@[table.names()[j]]@,
                ),
        decreases n - i,
    {
        r.push((table.name_at(i).clone(), value_of_expr(table.value_at(i))));
        i = i + 1;
    }
    r
}

/// Whether the value that an expression is written as denotes it.
pub open spec fn storable(expr: KeyExprView) -> bool {
    match expr {
        KeyExprView::Combo(keys) => keys.len() != 1 && forall|i: int|
            0 <= i < keys.len() ==> (#[trigger] keys[i]).len() > 0,
        _ => expressible(expr),
    }
}

proof fn lemma_listed(keys: Seq<Seq<char>>)
    requires
        forall|i: int| 0 <= i < keys.len() ==> (#[trigger] keys[i]).len() > 0,
    ensures
        listed_keys(Seq::new(keys.len(), |i: int| Some(keys[i]))) == keys,
    decreases keys.len(),
{
    let list = Seq::new(keys.len(), |i: int| Some(keys[i]));
    if keys.len() > 0 {
        let rest = keys.drop_last();
        assert forall|i: int| 0 <= i < rest.len() implies (#[trigger] rest[i]).len() > 0 by {
            assert(rest[i] == keys[i]);
        }
        lemma_listed(rest);
        assert(list.drop_last() =~= Seq::new(rest.len(), |i: int| Some(rest[i])));
        assert(keys.last().len() > 0);
        assert(keys =~= rest.push(keys.last()));
    } else {
        assert(listed_keys(list) =~= keys);
    }
}

/// Writing an expression into a configuration and reading the value gives the expression back.
pub proof fn value_round_trip(expr: KeyExprView)
    requires
        storable(expr),
    ensures
        value_expr(expr_value(expr)) == Some(expr),
{
    match expr {
        KeyExprView::Combo(keys) => {
            lemma_listed(keys);
        },
        _ => {
            parse_undoes_to_string(expr);
        },
    }
}

proof fn lemma_entries_prefix(
    entries: Seq<(String, RemapValue)>,
    names: Seq<Seq<char>>,
    remap: Map<Seq<char>, KeyExprView>,
    n: int,
)
    requires
        entries.len() == names.len(),
        0 <= n <= names.len(),
        forall|i: int|
            0 <= i < names.len() ==> (#[trigger] entries[i]).0@ == names[i] && entries[i].1@
                == expr_value(remap[names[i]]) && storable(remap[names[i]]),
    ensures
        entries_remap(entries.take(n)) is Some,
        forall|k: Seq<char>|
            entries_remap(entries.take(n))->0.contains_key(k) <==> names.take(n).contains(k),
        forall|k: Seq<char>|
            names.take(n).contains(k) ==> #[trigger] entries_remap(entries.take(n))->0[k]
                == remap[k],
    decreases n,
{
    if n == 0 {
        assert(entries.take(0) =~= Seq::empty());
    } else {
        lemma_entries_prefix(entries, names, remap, n - 1);
        assert(entries.take(n).drop_last() =~= entries.take(n - 1));
        assert(entries.take(n).last() == entries[n - 1]);
        value_round_trip(remap[names[n - 1]]);
        let before = names.take(n - 1);
        let now = names.take(n);
        assert forall|k: Seq<char>|
            now.contains(k) <==> (before.contains(k) || k == names[n - 1]) by {
            if before.contains(k) {
                let j = choose|j: int| 0 <= j < before.len() && before[j] == k;
                assert(now[j] == k);
            }
            assert(now[n - 1] == names[n - 1]);
            if now.contains(k) {
                let j = choose|j: int| 0 <= j < now.len() && now[j] == k;
                if j < n - 1 {
                    assert(before[j] == k);
                }
            }
        }
    }
}

/// Entries that hold, for each name of a table once, the value of its expression denote that table.
pub proof fn remap_round_trip(
    entries: Seq<(String, RemapValue)>,
    names: Seq<Seq<char>>,
    remap: Map<Seq<char>, KeyExprView>,
)
    requires
        entries.len() == names.len(),
        remap.dom() == names.to_set(),
        forall|i: int|
            0 <= i < names.len() ==> (#[trigger] entries[i]).0@ == names[i] && entries[i].1@
                == expr_value(remap[names[i]]),
        forall|k: Seq<char>| remap.contains_key(k) ==> storable(#[trigger] remap[k]),
    ensures
        entries_remap(entries) == Some(remap),
{
    assert forall|i: int| 0 <= i < names.len() implies (#[trigger] entries[i]).0@ == names[i]
        && entries[i].1@ == expr_value(remap[names[i]]) && storable(remap[names[i]]) by {
        assert(names.to_set().contains(names[i]));
    }
    let n = names.len() as int;
    lemma_entries_prefix(entries, names, remap, n);
    assert(entries.take(n) =~= entries);
    assert(names.take(n) =~= names);
    assert forall|k: Seq<char>| remap.contains_key(k) <==> names.contains(k) by {
        assert(names.to_set().contains(k) <==> names.contains(k));
    }
    assert(entries_remap(entries)->0 =~= remap);
}

/// A list keeps its texts in order, without those that are empty and the elements that are no text.
pub proof fn empty_texts_are_left_out(
    front: Seq<Option<Seq<char>>>,
    rest: Seq<Option<Seq<char>>>,
    text: Seq<char>,
)
    ensures
        listed_keys(front + rest) == listed_keys(front) + listed_keys(rest),
        listed_keys(seq![Some(text)]) == (if text.len() > 0 {
            seq![text]
        } else {
            Seq::empty()
        }),
        listed_keys(seq![None]).len() == 0,
        listed_keys(Seq::empty()).len() == 0,
    decreases rest.len(),
{
    let a = listed_keys(front);
    if rest.len() == 0 {
        assert(front + rest =~= front);
        assert(a + Seq::<Seq<char>>::empty() =~= a);
    } else {
        empty_texts_are_left_out(front, rest.drop_last(), text);
        assert((front + rest).drop_last() =~= front + rest.drop_last());
        assert((front + rest).last() == rest.last());
        let b = listed_keys(rest.drop_last());
        match rest.last() {
            Some(s) => {
                assert((a + b).push(s) =~= a + b.push(s));
            },
            None => {},
        }
    }
    let one: Seq<Option<Seq<char>>> = seq![Some(text)];
    let none: Seq<Option<Seq<char>>> = seq![None];
    reveal_with_fuel(listed_keys, 2);
    assert(one.drop_last() =~= Seq::empty());
    assert(none.drop_last() =~= Seq::empty());
    assert(one.last() == Some(text));
    assert(none.last() is None);
    assert(Seq::<Seq<char>>::empty().push(text) =~= seq![text]);
}

/// A text denotes the expression that it spells. A list that keeps exactly one text denotes that key
/// as it is, and any other list the combo of the texts that it keeps. Anything else denotes nothing.
pub proof fn values_denote_expressions(text: String, list: Vec<Option<String>>)
    ensures
        ({
            let keys = listed_keys(optional_texts(list@));
            let expr = value_expr(RemapValue::List(list)@);
            &&& value_expr(RemapValue::Text(text)@) == Some(parsed_expr(text@))
            &&& value_expr(RemapValue::Other@) is None
            &&& keys.len() == 1 ==> expr == Some(KeyExprView::Single(keys[0]))
            &&& keys.len() != 1 ==> expr == Some(KeyExprView::Combo(keys))
        }),
{
}

/// The texts of a list are those of its elements, place by place.
pub proof fn optional_texts_by_place(list: Seq<Option<String>>, i: int)
    requires
        0 <= i < list.len(),
    ensures
        optional_texts(list).len() == list.len(),
        optional_texts(list)[i] is Some <==> list[i] is Some,
        list[i] is Some ==> optional_texts(list)[i]->0 == list[i]->0@,
{
}

/// One more entry maps its key to its expression, in place of an earlier entry for the key, and
/// leaves the other keys as they were. An entry whose value denotes nothing spoils the whole table.
pub proof fn later_entries_win(
    entries: Seq<(String, RemapValue)>,
    key: String,
    value: RemapValue,
    other: Seq<char>,
)
    ensures
        ({
            let before = entries_remap(entries);
            let after = entries_remap(entries.push((key, value)));
            &&& entries_remap(Seq::empty()) == Some(Map::<Seq<char>, KeyExprView>::empty())
            &&& after is Some <==> before is Some && value_expr(value@) is Some
            &&& after is Some ==> {
                &&& after->0.contains_key(key@)
                &&& Some(after->0[key@]) == value_expr(value@)
                &&& other != key@ ==> after->0.contains_key(other) == before->0.contains_key(other)
                &&& other != key@ && before->0.contains_key(other) ==> after->0[other]
                    == before->0[other]
            }
        }),
{
    assert(entries.push((key, value)).drop_last() =~= entries);
    assert(entries.push((key, value)).last() == (key, value));
}

/// A combo is written as the list of its keys, and any other expression as its text.
pub proof fn expressions_are_stored(keys: Seq<Seq<char>>, key: Seq<char>, i: int)
    requires
        0 <= i < keys.len(),
    ensures
        expr_value(KeyExprView::Combo(keys)) is List,
        expr_value(KeyExprView::Combo(keys))->List_0.len() == keys.len(),
        expr_value(KeyExprView::Combo(keys))->List_0[i] == Some(keys[i]),
        expr_value(KeyExprView::Single(key)) == RemapValueView::Text(key),
        expr_value(KeyExprView::Sequence(keys)) == RemapValueView::Text(
            expr_text(KeyExprView::Sequence(keys)),
        ),
{
}

/// The expressions of a table are those of its keys.
pub proof fn expressions_of_a_table(remap: Map<Seq<char>, KeyExpr>, key: Seq<char>)
    ensures
        exprs(remap).contains_key(key) <==> remap.contains_key(key),
        remap.contains_key(key) ==> exprs(remap)[key] == remap[key]@,
{
}

/// A list of entries denotes a table exactly if every value denotes an expression. The table has the
/// keys of the entries, and the last entry for a key decides.
pub proof fn entries_map_their_keys(entries: Seq<(String, RemapValue)>, key: Seq<char>)
    ensures
        entries_remap(entries) is Some <==> forall|i: int|
            0 <= i < entries.len() ==> value_expr((#[trigger] entries[i]).1@) is Some,
        entries_remap(entries) is Some ==> {
            &&& entries_remap(entries)->0.contains_key(key) <==> exists|i: int|
                0 <= i < entries.len() && (#[trigger] entries[i]).0@ == key
            &&& forall|i: int|
                (0 <= i < entries.len() && (#[trigger] entries[i]).0@ == key && forall|j: int|
                    i < j < entries.len() ==> (#[trigger] entries[j]).0@ != key) ==> value_expr(
                    entries[i].1@,
                ) == Some(entries_remap(entries)->0[key])
        },
    decreases entries.len(),
{
    if entries.len() > 0 {
        let front = entries.drop_last();
        let n = entries.len() - 1;
        let last = entries[n];
        entries_map_their_keys(front, key);
        assert forall|i: int| 0 <= i < n implies #[trigger] front[i] == entries[i] by {
        }
        if forall|i: int| 0 <= i < entries.len() ==> value_expr((#[trigger] entries[i]).1@) is Some {
            assert forall|i: int| 0 <= i < front.len() implies value_expr((#[trigger] front[i]).1@)
                is Some by {
                assert(entries[i] == front[i]);
            }
            assert(value_expr(last.1@) is Some);
        }
        if entries_remap(entries) is Some {
            let before = entries_remap(front)->0;
            let after = entries_remap(entries)->0;
            assert(after == before.insert(last.0@, value_expr(last.1@)->0));
            assert forall|i: int| 0 <= i < entries.len() implies value_expr(
                (#[trigger] entries[i]).1@,
            ) is Some by {
                if i < n {
                    assert(front[i] == entries[i]);
                }
            }
            if exists|i: int| 0 <= i < front.len() && (#[trigger] front[i]).0@ == key {
                let i = choose|i: int| 0 <= i < front.len() && (#[trigger] front[i]).0@ == key;
                assert(entries[i].0@ == key);
            }
            if exists|i: int| 0 <= i < entries.len() && (#[trigger] entries[i]).0@ == key {
                let i = choose|i: int| 0 <= i < entries.len() && (#[trigger] entries[i]).0@ == key;
                if i < n {
                    assert(front[i].0@ == key);
                }
            }
            assert forall|i: int|
                (0 <= i < entries.len() && (#[trigger] entries[i]).0@ == key && forall|j: int|
                    i < j < entries.len() ==> (
                    #[trigger] entries[j]).0@ != key) implies value_expr(entries[i].1@) == Some(
                after[key],
            ) by {
                if i < n {
                    assert(last.0@ != key);
                    assert(front[i].0@ == key);
                    assert forall|j: int| i < j < front.len() implies (
                    #[trigger] front[j]).0@ != key by {
                        assert(entries[j] == front[j]);
                    }
                }
            }
        }
    }
}

} // verus!
