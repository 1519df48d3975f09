use vstd::prelude::*;

use crate::lookup::{
    find_key, first_value, key_index, keys_of, lemma_key_index_bounds, lemma_key_index_none,
    lemma_key_index_push, string_keys, unique_keys,
};
use crate::value::{Tree, Value};

verus! {

/// The entries with `key` bound to `v`: the first entry with that key takes
/// the new value in place, or a new entry is appended when there is none.
pub open spec fn set_entry(entries: Seq<(Seq<char>, Tree)>, key: Seq<char>, v: Tree) -> Seq<(Seq<char>, Tree)> {
    let i = key_index(keys_of(entries), key, 0);
    if i >= 0 {
        entries.update(i, (key, v))
    } else {
        entries.push((key, v))
    }
}

/// A theme tree whose `name` entry is the theme's lookup key. A tree that is
/// not a table is left as it is.
pub open spec fn named(t: Tree, theme: Seq<char>) -> Tree {
    match t {
        Tree::Table(e) => Tree::Table(set_entry(e, "name"@, Tree::Str(theme))),
        _ => t,
    }
}

/// Gives a parsed theme its identity: the `name` entry is set to `theme`, the
/// name the theme was looked up by, whatever the file said.
pub fn name_theme(value: Value, theme: &str) -> (r: Value)
    ensures
        r@ == named(value@, theme@),
{
    match value {
        Value::Table(mut entries) => {
            let ghost before = value@->Table_0;
            let ghost old_entries = entries@;
            assert forall|k: int| 0 <= k < old_entries.len() implies before[k] == (
                old_entries[k].0@,
                old_entries[k].1@,
            ) by {}
            let key = "name".to_string();
            proof {
                assert(keys_of(before) =~= string_keys(entries@));
            }
            let named_value = Value::String(theme.to_string());
            match find_key(&entries, &key) {
                Some(i) => {
                    entries.set(i, (key, named_value));
                },
                None => {
                    entries.push((key, named_value));
                },
            }
            let r = Value::Table(entries);
            assert forall|k: int| 0 <= k < entries@.len() implies r@->Table_0[k] == (
                entries@[k].0@,
                entries@[k].1@,
            ) by {}
            assert(r@->Table_0 =~= set_entry(before, "name"@, Tree::Str(theme@)));
            r
        },
        other => other,
    }
}

/// Whatever a theme's table held, its `name` entry is the key it was looked
/// up by once it has been named.
pub proof fn lemma_named_by_key(t: Tree, theme: Seq<char>)
    requires
        t is Table,
    ensures
        named(t, theme) is Table,
        first_value(named(t, theme)->Table_0, "name"@) == Some(Tree::Str(theme)),
{
    let e = t->Table_0;
    let r = named(t, theme)->Table_0;
    let i = key_index(keys_of(e), "name"@, 0);
    lemma_key_index_bounds(keys_of(e), "name"@, 0);
    if i >= 0 {
        assert(keys_of(r) =~= keys_of(e));
    } else {
        assert(keys_of(r) =~= keys_of(e).push("name"@));
        lemma_key_index_push(keys_of(e), "name"@, 0);
    }
}

/// Naming a theme whose keys are unique keeps them unique.
pub proof fn lemma_named_keeps_keys_unique(t: Tree, theme: Seq<char>)
    requires
        t is Table,
        unique_keys(keys_of(t->Table_0)),
    ensures
        unique_keys(keys_of(named(t, theme)->Table_0)),
{
    let e = t->Table_0;
    let r = named(t, theme)->Table_0;
    let i = key_index(keys_of(e), "name"@, 0);
    lemma_key_index_bounds(keys_of(e), "name"@, 0);
    if i >= 0 {
        assert(keys_of(r) =~= keys_of(e));
    } else {
        lemma_key_index_none(keys_of(e), "name"@, 0);
        assert(keys_of(r) =~= keys_of(e).push("name"@));
    }
}

} // verus!
