//! The text a value prints as.
use crate::host::Host;
use crate::interpreter::datatype::{Callable, DataType};
use crate::interpreter::store::Store;
use crate::text::{bool_to_string, cat, cat3, spec_bool_text};
use vstd::prelude::*;

verus! {

/// How deeply nested lists and dictionaries are printed; deeper ones print as `[...]` and
/// `{...}` (a list may hold itself).
pub const DISPLAY_DEPTH: usize = 32;

/// `fn <name>() { }`.
pub open spec fn spec_callable_text(c: Callable) -> Seq<char> {
    "fn "@ + match c.name {
        Some(n) => n@,
        None => Seq::<char>::empty(),
    } + "() { }"@
}

pub fn callable_text(c: &Callable) -> (s: String)
    ensures
        s@ == spec_callable_text(*c),
{
    match &c.name {
        Some(n) => cat3("fn ", n.as_str(), "() { }"),
        None => {
            let s = cat("fn ", "() { }");
            assert(s@ == "fn "@ + Seq::<char>::empty() + "() { }"@);
            s
        },
    }
}

/// The text `v` prints as, where neither it nor what it holds is a number (the host writes
/// numbers); `None` where one is. Lists and dictionaries nested deeper than `fuel` print as
/// `[...]` and `{...}`; a reference to nothing in the store prints empty.
pub open spec fn shown(store: Store, v: DataType, fuel: nat) -> Option<Seq<char>>
    decreases fuel, 1nat, 0nat,
{
    match v {
        DataType::Number(_) => None,
        DataType::String(x) => Some("\""@ + x@ + "\""@),
        DataType::Boolean(b) => Some(spec_bool_text(b)),
        DataType::Function(c) => Some(spec_callable_text(c)),
        DataType::Module(m) => Some("Module '"@ + m.name@ + "'"@),
        DataType::Undefined => Some("undefined"@),
        DataType::List(l) => if fuel == 0 {
            Some("[...]"@)
        } else if l.index < store.list_seq().len() {
            match shown_items(store, store.list_seq()[l.index as int].values@, (fuel - 1) as nat) {
                Some(t) => Some("["@ + t + "]"@),
                None => None,
            }
        } else {
            Some("[]"@)
        },
        DataType::Dictionary(d) => if fuel == 0 {
            Some("{...}"@)
        } else if d.index < store.dict_seq().len() {
            match shown_entries(store, store.dict_seq()[d.index as int].entry_seq(), (fuel - 1) as nat) {
                Some(t) => Some("{"@ + t + "}"@),
                None => None,
            }
        } else {
            Some("{}"@)
        },
    }
}

/// The texts of `items`, joined by `, `.
pub open spec fn shown_items(store: Store, items: Seq<DataType>, fuel: nat) -> Option<Seq<char>>
    decreases fuel + 1, 0nat, items.len(),
{
    if items.len() == 0 {
        Some(Seq::<char>::empty())
    } else {
        match (shown_items(store, items.drop_last(), fuel), shown(store, items.last(), fuel)) {
            (Some(a), Some(b)) => Some(if items.len() == 1 { b } else { a + ", "@ + b }),
            _ => None,
        }
    }
}

/// The entries `key: value` of `entries`, joined by `, `.
pub open spec fn shown_entries(store: Store, entries: Seq<(String, DataType)>, fuel: nat) -> Option<Seq<char>>
    decreases fuel + 1, 0nat, entries.len(),
{
    if entries.len() == 0 {
        Some(Seq::<char>::empty())
    } else {
        match (shown_entries(store, entries.drop_last(), fuel), shown(store, entries.last().1, fuel)) {
            (Some(a), Some(b)) => {
                let entry = entries.last().0@ + ": "@ + b;
                Some(if entries.len() == 1 { entry } else { a + ", "@ + entry })
            },
            _ => None,
        }
    }
}

/// `texts` joined by `, `.
pub open spec fn joined(texts: Seq<Seq<char>>) -> Seq<char>
    decreases texts.len(),
{
    if texts.len() == 0 {
        Seq::<char>::empty()
    } else if texts.len() == 1 {
        texts[0]
    } else {
        joined(texts.drop_last()) + ", "@ + texts.last()
    }
}

/// A list whose values print as `texts`: `[`, the texts joined by `, `, and `]`.
pub open spec fn list_text(texts: Seq<Seq<char>>) -> Seq<char> {
    "["@ + joined(texts) + "]"@
}

/// A dictionary with the entries `entries` whose values print as `texts`: `{`, the entries
/// `key: text` joined by `, `, and `}`.
pub open spec fn dictionary_text(entries: Seq<(String, DataType)>, texts: Seq<Seq<char>>) -> Seq<char> {
    "{"@ + joined(Seq::new(texts.len(), |k: int| entries[k].0@ + ": "@ + texts[k])) + "}"@
}

/// `text` is a text `v` prints as, numbers written as `host` writes them: a number as the
/// host's text of it; a list as `[`, the texts of all its values joined by `, `, and `]`; a
/// dictionary as `{`, its entries `key: value` joined by `, `, and `}`; anything else as
/// `shown` gives it. Lists and dictionaries nested deeper than `fuel` print as `[...]` and
/// `{...}`; a reference to nothing in the store prints empty.
pub open spec fn shows<H: Host>(host: &H, store: Store, v: DataType, text: Seq<char>, fuel: nat) -> bool
    decreases fuel,
{
    match v {
        DataType::Number(n) => exists|t: String| #[trigger] call_ensures(H::number_to_string, (host, n), t) && t@ == text,
        DataType::List(l) => if fuel == 0 {
            text == "[...]"@
        } else if l.index < store.list_seq().len() {
            exists|texts: Seq<Seq<char>>| #[trigger] list_text(texts) == text
                && texts.len() == store.list_seq()[l.index as int].values@.len()
                && forall|k: int| 0 <= k < texts.len() ==> shows(host, store,
                    store.list_seq()[l.index as int].values@[k], #[trigger] texts[k], (fuel - 1) as nat)
        } else {
            text == "[]"@
        },
        DataType::Dictionary(d) => if fuel == 0 {
            text == "{...}"@
        } else if d.index < store.dict_seq().len() {
            exists|texts: Seq<Seq<char>>| #[trigger] dictionary_text(store.dict_seq()[d.index as int].entry_seq(), texts) == text
                && texts.len() == store.dict_seq()[d.index as int].entry_seq().len()
                && forall|k: int| 0 <= k < texts.len() ==> shows(host, store,
                    store.dict_seq()[d.index as int].entry_seq()[k].1, #[trigger] texts[k], (fuel - 1) as nat)
        } else {
            text == "{}"@
        },
        _ => shown(store, v, fuel) == Some(text),
    }
}

/// The text `value` prints as: strings in double quotes, lists as `[a, b]`, dictionaries
/// as `{key: value}` in the order their keys were first set, numbers as the host writes
/// them.
pub fn display_value<H: Host>(store: &Store, host: &H, value: &DataType, fuel: usize) -> (s: String)
    requires
        store.wf(),
    ensures
        value matches DataType::String(x) ==> s@ == "\""@ + x@ + "\""@,
        value matches DataType::Boolean(b) ==> s@ == spec_bool_text(*b),
        value matches DataType::Function(c) ==> s@ == spec_callable_text(*c),
        value matches DataType::Module(m) ==> s@ == "Module '"@ + m.name@ + "'"@,
        value is Undefined ==> s@ == "undefined"@,
        shown(*store, *value, fuel as nat) matches Some(t) ==> s@ == t,
        shows(host, *store, *value, s@, fuel as nat),
    decreases fuel,
{
    match value {
        DataType::Number(n) => {
            let text = host.number_to_string(*n);
            proof {
                assert(call_ensures(H::number_to_string, (host, *n), text));
                assert(exists|t: String| #[trigger] call_ensures(H::number_to_string, (host, *n), t) && t@ == text@);
                assert(shows(host, *store, DataType::Number(*n), text@, fuel as nat));
                assert(*value == DataType::Number(*n));
            }
            text
        },
        DataType::String(x) => cat3("\"", x.as_str(), "\""),
        DataType::Boolean(b) => bool_to_string(*b),
        DataType::Function(c) => callable_text(c),
        DataType::Module(m) => cat3("Module '", m.name.as_str(), "'"),
        DataType::Undefined => "undefined".to_owned(),
        DataType::List(l) => {
            if fuel == 0 {
                return "[...]".to_owned();
            }
            match store.list(*l) {
                None => "[]".to_owned(),
                Some(list) => {
                    let ghost items = list.values@;
                    let ghost f = (fuel - 1) as nat;
                    let mut s = "[".to_owned();
                    let ghost mut texts: Seq<Seq<char>> = Seq::empty();
                    proof {
                        assert(s@ =~= "["@ + joined(texts));
                    }
                    let mut i: usize = 0;
                    while i < list.values.len()
                        invariant
                            texts.len() == i,
                            forall|k: int| 0 <= k < i ==> shows(host, *store, items[k], #[trigger] texts[k], f),
                            s@ == "["@ + joined(texts),
                            store.wf(),
                            i <= list.values.len(),
                            fuel > 0,
                            items == list.values@,
                            f == (fuel - 1) as nat,
                            shown_items(*store, items.take(i as int), f) matches Some(t) ==> s@ == "["@ + t,
                        decreases list.values.len() - i,
                    {
                        proof {
                            assert(items.take(i + 1).drop_last() =~= items.take(i as int));
                            assert(items.take(i + 1).last() == items[i as int]);
                        }
                        let ghost before = s@;
                        if i > 0 {
                            s.append(", ");
                        }
                        let item = display_value(store, host, &list.values[i], fuel - 1);
                        s.append(item.as_str());
                        proof {
                            if shown_items(*store, items.take(i + 1), f) is Some {
                                let a = shown_items(*store, items.take(i as int), f)->0;
                                let b = shown(*store, items[i as int], f)->0;
                                assert(before == "["@ + a);
                                assert(item@ == b);
                                if i > 0 {
                                    assert(s@ =~= "["@ + (a + ", "@ + b));
                                } else {
                                    assert(s@ =~= "["@ + b);
                                }
                            }
                            let longer = texts.push(item@);
                            assert(longer.drop_last() =~= texts);
                            if i > 0 {
                                assert(s@ =~= "["@ + (joined(texts) + ", "@ + item@));
                            } else {
                                assert(s@ =~= "["@ + item@);
                            }
                            assert(s@ =~= "["@ + joined(longer));
                            texts = longer;
                        }
                        i = i + 1;
                    }
                    proof {
                        assert(items.take(items.len() as int) =~= items);
                    }
                    s.append("]");
                    proof {
                        assert(s@ =~= list_text(texts));
                    }
                    s
                },
            }
        },
        DataType::Dictionary(d) => {
            if fuel == 0 {
                return "{...}".to_owned();
            }
            match store.dictionary(*d) {
                None => "{}".to_owned(),
                Some(dict) => {
                    let ghost entries = dict.entry_seq();
                    let ghost f = (fuel - 1) as nat;
                    let mut s = "{".to_owned();
                    let ghost mut texts: Seq<Seq<char>> = Seq::empty();
                    proof {
                        assert(Seq::new(texts.len(), |k: int| entries[k].0@ + ": "@ + texts[k]) =~= Seq::<Seq<char>>::empty());
                        assert(s@ =~= "{"@ + joined(Seq::new(texts.len(), |k: int| entries[k].0@ + ": "@ + texts[k])));
                    }
                    let mut i: usize = 0;
                    let n = dict.count();
                    while i < n
                        invariant
                            texts.len() == i,
                            forall|k: int| 0 <= k < i ==> shows(host, *store, entries[k].1, #[trigger] texts[k], f),
                            s@ == "{"@ + joined(Seq::new(texts.len(), |k: int| entries[k].0@ + ": "@ + texts[k])),
                            store.wf(),
                            n == dict.entry_seq().len(),
                            i <= n,
                            fuel > 0,
                            entries == dict.entry_seq(),
                            f == (fuel - 1) as nat,
                            shown_entries(*store, entries.take(i as int), f) matches Some(t) ==> s@ == "{"@ + t,
                        decreases n - i,
                    {
                        proof {
                            assert(entries.take(i + 1).drop_last() =~= entries.take(i as int));
                            assert(entries.take(i + 1).last() == entries[i as int]);
                        }
                        let ghost before = s@;
                        if i > 0 {
                            s.append(", ");
                        }
                        let key = dict.key_at(i);
                        s.append(key.as_str());
                        s.append(": ");
                        let item = display_value(store, host, dict.value_at(i), fuel - 1);
                        s.append(item.as_str());
                        proof {
                            if shown_entries(*store, entries.take(i + 1), f) is Some {
                                let a = shown_entries(*store, entries.take(i as int), f)->0;
                                let b = shown(*store, entries[i as int].1, f)->0;
                                let entry = entries[i as int].0@ + ": "@ + b;
                                assert(before == "{"@ + a);
                                assert(item@ == b);
                                if i > 0 {
                                    assert(s@ =~= "{"@ + (a + ", "@ + entry));
                                } else {
                                    assert(s@ =~= "{"@ + entry);
                                }
                            }
                            let longer = texts.push(item@);
                            let pairs = Seq::new(texts.len(), |k: int| entries[k].0@ + ": "@ + texts[k]);
                            let pairs2 = Seq::new(longer.len(), |k: int| entries[k].0@ + ": "@ + longer[k]);
                            assert(pairs2.drop_last() =~= pairs);
                            assert(pairs2.last() == key@ + ": "@ + item@);
                            if i > 0 {
                                assert(s@ =~= "{"@ + (joined(pairs) + ", "@ + (key@ + ": "@ + item@)));
                            } else {
                                assert(s@ =~= "{"@ + (key@ + ": "@ + item@));
                            }
                            assert(s@ =~= "{"@ + joined(pairs2));
                            texts = longer;
                        }
                        i = i + 1;
                    }
                    proof {
                        assert(entries.take(n as int) =~= entries);
                    }
                    s.append("}");
                    proof {
                        assert(s@ =~= dictionary_text(entries, texts));
                    }
                    s
                },
            }
        },
    }
}

/// A number prints as the host writes it.
pub proof fn law_number_text_is_the_hosts<H: Host>(host: &H, store: Store, n: crate::host::NumberValue, text: Seq<char>, fuel: nat)
    requires
        shows(host, store, DataType::Number(n), text, fuel),
    ensures
        exists|t: String| #[trigger] call_ensures(H::number_to_string, (host, n), t) && t@ == text,
{
}

/// A list prints every one of its values, in order, whatever they are (numbers included):
/// `[`, a text of each value, separated by `, `, and `]`.
pub proof fn law_list_text_shows_every_value<H: Host>(host: &H, store: Store, l: crate::interpreter::datatype::ListRef, text: Seq<char>, fuel: nat)
    requires
        fuel > 0,
        l.index < store.list_seq().len(),
        shows(host, store, DataType::List(l), text, fuel),
    ensures
        exists|texts: Seq<Seq<char>>| #![trigger joined(texts)] texts.len() == store.list_seq()[l.index as int].values@.len()
            && (forall|k: int| 0 <= k < texts.len() ==> shows(host, store, store.list_seq()[l.index as int].values@[k],
                #[trigger] texts[k], (fuel - 1) as nat))
            && text == "["@ + joined(texts) + "]"@,
{
    let texts = choose|texts: Seq<Seq<char>>| #[trigger] list_text(texts) == text
        && texts.len() == store.list_seq()[l.index as int].values@.len()
        && forall|k: int| 0 <= k < texts.len() ==> shows(host, store,
            store.list_seq()[l.index as int].values@[k], #[trigger] texts[k], (fuel - 1) as nat);
    assert(text == "["@ + joined(texts) + "]"@);
}

/// The total length of `texts` with a separator of two characters after each.
pub open spec fn separated_length(texts: Seq<Seq<char>>) -> nat
    decreases texts.len(),
{
    if texts.len() == 0 {
        0
    } else {
        separated_length(texts.drop_last()) + texts.last().len() + 2
    }
}

/// Joining drops nothing: the joined text is as long as all the texts and a `, ` between
/// each two.
pub proof fn law_joined_drops_nothing(texts: Seq<Seq<char>>)
    requires
        texts.len() > 0,
    ensures
        joined(texts).len() + 2 == separated_length(texts),
    decreases texts.len(),
{
    reveal_strlit(", ");
    if texts.len() > 1 {
        law_joined_drops_nothing(texts.drop_last());
    } else {
        assert(texts.drop_last().len() == 0);
        assert(separated_length(texts.drop_last()) == 0);
        assert(texts.last() == texts[0]);
    }
}

} // verus!
