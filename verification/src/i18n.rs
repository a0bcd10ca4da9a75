//! Header-title translation: a dotted key (`section.key` or `key`) is looked
//! up in a TOML table, and the literal title is kept whenever the lookup does
//! not land on a text leaf.

use vstd::prelude::*;

use crate::text::{chars_of, string_from_chars, subrange_chars};

verus! {

#[verifier::external_type_specification]
#[verifier::external_body]
pub struct ExTomlValue(toml::Value);

#[verifier::external_type_specification]
#[verifier::external_body]
#[verifier::reject_recursive_types(K)]
#[verifier::reject_recursive_types(V)]
pub struct ExTomlMap<K, V>(toml::map::Map<K, V>);

/// The text leaf that a flat lookup of `key` finds in `t`, if the table has
/// an entry under `key` and that entry is a string.
pub uninterp spec fn flat_leaf(t: &toml::Table, key: Seq<char>) -> Option<Seq<char>>;

/// The text leaf that a two-level lookup finds in `t`: the entry under
/// `section`, when it is itself a table, looked up at `key`, when that entry
/// is a string.
pub uninterp spec fn nested_leaf(t: &toml::Table, section: Seq<char>, key: Seq<char>) -> Option<
    Seq<char>,
>;

/// Relies on `toml::map::Map::get` and `toml::Value::as_str`: the entry of
/// the table under `key`, kept only when it is a string.
#[verifier::external_body]
fn lookup_flat(t: &toml::Table, key: &str) -> (r: Option<String>)
    ensures
        r is Some == flat_leaf(t, key@) is Some,
        r matches Some(s) ==> flat_leaf(t, key@) == Some(s@),
{
    match t.get(key) {
        Some(v) => match v.as_str() {
            Some(s) => Some(s.to_owned()),
            None => None,
        },
        None => None,
    }
}

/// Relies on `toml::map::Map::get`, `toml::Value::get` and
/// `toml::Value::as_str`: the entry under `section`, indexed at `key` when it
/// is a table, kept only when the inner entry is a string.
#[verifier::external_body]
fn lookup_nested(t: &toml::Table, section: &str, key: &str) -> (r: Option<String>)
    ensures
        r is Some == nested_leaf(t, section@, key@) is Some,
        r matches Some(s) ==> nested_leaf(t, section@, key@) == Some(s@),
{
    match t.get(section) {
        Some(sec) => match sec.get(key) {
            Some(v) => match v.as_str() {
                Some(s) => Some(s.to_owned()),
                None => None,
            },
            None => None,
        },
        None => None,
    }
}

/// How many characters of `s` are dots.
pub open spec fn spec_dot_count(s: Seq<char>) -> nat
    decreases s.len(),
{
    if s.len() == 0 {
        0
    } else {
        spec_dot_count(s.drop_last()) + if s.last() == '.' {
            1nat
        } else {
            0nat
        }
    }
}

/// The index of the first dot of `s`, or its length when it has none.
pub open spec fn spec_first_dot(s: Seq<char>) -> int
    decreases s.len(),
{
    if s.len() == 0 {
        0
    } else if s[0] == '.' {
        0
    } else {
        1 + spec_first_dot(s.drop_first())
    }
}

/// A title resolved against a table: a single segment is looked up flat, a
/// `section.key` pair is looked up nested, and in every other case — more
/// than one dot, or no text leaf found — the title itself is the answer.
pub open spec fn spec_resolve(title: Seq<char>, t: &toml::Table) -> Seq<char> {
    let dots = spec_dot_count(title);
    if dots == 0 {
        match flat_leaf(t, title) {
            Some(s) => s,
            None => title,
        }
    } else if dots == 1 {
        let i = spec_first_dot(title);
        match nested_leaf(t, title.take(i), title.skip(i + 1)) {
            Some(s) => s,
            None => title,
        }
    } else {
        title
    }
}

/// A title resolved against an optional table: with no table the title
/// stands as it is.
pub open spec fn spec_resolved_title(title: Seq<char>, t: Option<&toml::Table>) -> Seq<char> {
    match t {
        Some(table) => spec_resolve(title, table),
        None => title,
    }
}

/// True when every text leaf that a lookup in `t` can find is free of
/// double quotes.
pub open spec fn spec_table_quote_free(t: &toml::Table) -> bool {
    &&& forall|key: Seq<char>|
        (#[trigger] flat_leaf(t, key)) matches Some(s) ==> crate::text::quote_free(s)
    &&& forall|section: Seq<char>, key: Seq<char>|
        (#[trigger] nested_leaf(t, section, key)) matches Some(s) ==> crate::text::quote_free(s)
}

/// A resolved title has no double quote when neither the title nor any text
/// leaf of the table has one.
pub proof fn lemma_resolved_title_quote_free(title: Seq<char>, t: Option<&toml::Table>)
    requires
        crate::text::quote_free(title),
        t matches Some(table) ==> spec_table_quote_free(table),
    ensures
        crate::text::quote_free(spec_resolved_title(title, t)),
{
}

/// The first dot of a sequence is where the first dot character stands.
proof fn lemma_first_dot_at(s: Seq<char>, i: int)
    requires
        0 <= i < s.len(),
        s[i] == '.',
        forall|j: int| 0 <= j < i ==> s[j] != '.',
    ensures
        spec_first_dot(s) == i,
    decreases i,
{
    if i > 0 {
        assert(s[0] != '.');
        lemma_first_dot_at(s.drop_first(), i - 1);
    }
}

/// Looks a dotted title up in a translation table, keeping the literal title
/// when no translation is found or the title has more than one dot.
pub fn resolve(title: &str, table: &toml::Table) -> (r: String)
    ensures
        r@ == spec_resolve(title@, table),
{
    let chars = chars_of(title);
    let n = chars.len();
    let mut count: usize = 0;
    let mut first: usize = 0;
    let mut i: usize = 0;
    while i < n
        invariant
            i <= n == chars@.len(),
            chars@ == title@,
            count == spec_dot_count(title@.take(i as int)),
            count <= i,
            count == 0 ==> forall|j: int| 0 <= j < i ==> title@[j] != '.',
            count > 0 ==> first < i && title@[first as int] == '.' && (forall|j: int|
                0 <= j < first ==> title@[j] != '.'),
        decreases n - i,
    {
        proof {
            assert(title@.take(i + 1).drop_last() =~= title@.take(i as int));
            assert(title@.take(i + 1).last() == title@[i as int]);
        }
        if chars[i] == '.' {
            if count == 0 {
                first = i;
            }
            count += 1;
        }
        i += 1;
    }
    proof {
        assert(title@.take(n as int) =~= title@);
    }
    if count == 0 {
        match lookup_flat(table, title) {
            Some(s) => s,
            None => title.to_owned(),
        }
    } else if count == 1 {
        proof {
            lemma_first_dot_at(title@, first as int);
        }
        let section_chars = subrange_chars(&chars, 0, first);
        let key_chars = subrange_chars(&chars, first + 1, n);
        let section = string_from_chars(&section_chars);
        let key = string_from_chars(&key_chars);
        proof {
            assert(section@ =~= title@.take(first as int));
            assert(key@ =~= title@.skip(first + 1));
        }
        match lookup_nested(table, section.as_str(), key.as_str()) {
            Some(s) => s,
            None => title.to_owned(),
        }
    } else {
        title.to_owned()
    }
}

} // verus!
