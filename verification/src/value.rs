//! The value bridge: converting a dynamic host-language term into the
//! document's closed value algebra.
//!
//! The conversion is total: every term yields a value, and unsupported
//! shapes degrade to the null value. Mapping keys must be string-like (a
//! symbol, or binary text holding valid UTF-8); an entry under any other
//! key is skipped. A later entry with an already-present key overwrites
//! that key's value in place, keeping the key's first position. Floats are
//! carried as their raw bit pattern and never interpreted here.

use vstd::prelude::*;

verus! {

use vstd::utf8::{valid_utf8, decode_utf8};

/// A dynamic term of the host language, as handed over by the caller's
/// runtime: only the shapes the bridge reads are distinguished.
#[derive(Debug, PartialEq, Eq)]
pub enum HostTerm {
    /// A symbolic scalar (an interned name), already in textual form.
    Symbol(String),
    /// A binary scalar; it may or may not hold valid UTF-8.
    Text(Vec<u8>),
    /// A boolean.
    Truth(bool),
    /// A 64-bit signed integer.
    Int(i64),
    /// A 64-bit float, carried as its raw bits.
    FloatBits(u64),
    /// An ordered list of terms.
    List(Vec<HostTerm>),
    /// An association of key terms to value terms, in the order supplied.
    Mapping(Vec<MapEntry>),
    /// The host language's null.
    Null,
    /// Any other shape the bridge does not support.
    Other,
}

/// One key/value pair of a [`HostTerm::Mapping`].
#[derive(Debug, PartialEq, Eq)]
pub struct MapEntry {
    pub key: HostTerm,
    pub value: HostTerm,
}

/// The mathematical form of a [`HostTerm`].
pub enum TermV {
    Symbol(Seq<char>),
    Text(Seq<u8>),
    Truth(bool),
    Int(i64),
    FloatBits(u64),
    List(Seq<TermV>),
    Mapping(Seq<EntryV>),
    Null,
    Other,
}

/// The mathematical form of a [`MapEntry`].
pub struct EntryV {
    pub key: TermV,
    pub value: TermV,
}

/// A value of the document's closed algebra.
#[derive(Debug, PartialEq, Eq)]
pub enum Value {
    /// The null value.
    Null,
    Bool(bool),
    Int(i64),
    /// A 64-bit float, carried as its raw bits.
    FloatBits(u64),
    Str(String),
    Array(Vec<Value>),
    /// A mapping from string keys to values; keys are unique and keep the
    /// position of their first occurrence.
    Dict(Vec<DictEntry>),
}

/// One key/value pair of a [`Value::Dict`].
#[derive(Debug, PartialEq, Eq)]
pub struct DictEntry {
    pub key: String,
    pub value: Value,
}

/// The mathematical form of a [`Value`].
pub enum ValueV {
    Null,
    Bool(bool),
    Int(i64),
    FloatBits(u64),
    Str(Seq<char>),
    Array(Seq<ValueV>),
    Dict(Seq<(Seq<char>, ValueV)>),
}

/// The mathematical form of a term.
pub open spec fn term_view(t: HostTerm) -> TermV
    decreases t,
{
    match t {
        HostTerm::Symbol(s) => TermV::Symbol(s@),
        HostTerm::Text(b) => TermV::Text(b@),
        HostTerm::Truth(b) => TermV::Truth(b),
        HostTerm::Int(i) => TermV::Int(i),
        HostTerm::FloatBits(f) => TermV::FloatBits(f),
        HostTerm::List(items) => TermV::List(
            Seq::new(
                items@.len(),
                |i: int|
                    if 0 <= i < items@.len() {
                        term_view(items@[i])
                    } else {
                        TermV::Null
                    },
            ),
        ),
        HostTerm::Mapping(entries) => TermV::Mapping(
            Seq::new(
                entries@.len(),
                |i: int|
                    if 0 <= i < entries@.len() {
                        EntryV {
                            key: term_view(entries@[i].key),
                            value: term_view(entries@[i].value),
                        }
                    } else {
                        EntryV { key: TermV::Null, value: TermV::Null }
                    },
            ),
        ),
        HostTerm::Null => TermV::Null,
        HostTerm::Other => TermV::Other,
    }
}

impl View for HostTerm {
    type V = TermV;

    open spec fn view(&self) -> TermV {
        term_view(*self)
    }
}

/// The mathematical form of a value.
pub open spec fn value_view(v: Value) -> ValueV
    decreases v,
{
    match v {
        Value::Null => ValueV::Null,
        Value::Bool(b) => ValueV::Bool(b),
        Value::Int(i) => ValueV::Int(i),
        Value::FloatBits(f) => ValueV::FloatBits(f),
        Value::Str(s) => ValueV::Str(s@),
        Value::Array(items) => ValueV::Array(
            Seq::new(
                items@.len(),
                |i: int|
                    if 0 <= i < items@.len() {
                        value_view(items@[i])
                    } else {
                        ValueV::Null
                    },
            ),
        ),
        Value::Dict(entries) => ValueV::Dict(dict_entries_view(entries@)),
    }
}

/// The mathematical form of a dict's entries.
pub open spec fn dict_entries_view(d: Seq<DictEntry>) -> Seq<(Seq<char>, ValueV)>
    decreases d,
{
    Seq::new(
        d.len(),
        |i: int|
            if 0 <= i < d.len() {
                (d[i].key@, value_view(d[i].value))
            } else {
                (Seq::empty(), ValueV::Null)
            },
    )
}

impl View for Value {
    type V = ValueV;

    open spec fn view(&self) -> ValueV {
        value_view(*self)
    }
}

/// The string a key term reduces to, if it is string-like.
pub open spec fn string_key_of(t: TermV) -> Option<Seq<char>> {
    match t {
        TermV::Symbol(s) => Some(s),
        TermV::Text(b) => if valid_utf8(b) {
            Some(decode_utf8(b))
        } else {
            None
        },
        _ => None,
    }
}

/// The index of the first entry with the given key, or -1 when absent.
pub open spec fn dict_find(d: Seq<(Seq<char>, ValueV)>, k: Seq<char>) -> int
    decreases d.len(),
{
    if d.len() == 0 {
        -1
    } else if d[0].0 == k {
        0
    } else {
        let r = dict_find(d.drop_first(), k);
        if r == -1 {
            -1
        } else {
            r + 1
        }
    }
}

/// Inserting a pair: an absent key is appended, a present key's value is
/// overwritten at the key's first position.
pub open spec fn dict_put(
    d: Seq<(Seq<char>, ValueV)>,
    k: Seq<char>,
    v: ValueV,
) -> Seq<(Seq<char>, ValueV)> {
    let i = dict_find(d, k);
    if i == -1 {
        d.push((k, v))
    } else {
        d.update(i, (k, v))
    }
}

/// Folds converted pairs into a dict, left to right, skipping pairs whose
/// key was not string-like.
pub open spec fn build_dict(pairs: Seq<(Option<Seq<char>>, ValueV)>) -> Seq<
    (Seq<char>, ValueV),
>
    decreases pairs.len(),
{
    if pairs.len() == 0 {
        Seq::empty()
    } else {
        let prefix = build_dict(pairs.drop_last());
        match pairs.last().0 {
            Some(k) => dict_put(prefix, k, pairs.last().1),
            None => prefix,
        }
    }
}

/// The pair a map entry contributes: its key's string form, if any, and
/// its converted value.
pub open spec fn entry_pair(e: EntryV) -> (Option<Seq<char>>, ValueV)
    decreases e,
{
    (string_key_of(e.key), convert_spec(e.value))
}

/// The elementwise conversion of a list's items.
pub open spec fn convert_list(items: Seq<TermV>) -> Seq<ValueV>
    decreases items,
{
    Seq::new(
        items.len(),
        |i: int|
            if 0 <= i < items.len() {
                convert_spec(items[i])
            } else {
                ValueV::Null
            },
    )
}

/// The pair each mapping entry contributes, in order.
pub open spec fn entry_pairs(entries: Seq<EntryV>) -> Seq<(Option<Seq<char>>, ValueV)>
    decreases entries,
{
    Seq::new(
        entries.len(),
        |i: int|
            if 0 <= i < entries.len() {
                entry_pair(entries[i])
            } else {
                (None, ValueV::Null)
            },
    )
}

/// What the bridge yields for each term.
pub open spec fn convert_spec(t: TermV) -> ValueV
    decreases t,
{
    match t {
        TermV::Symbol(s) => ValueV::Str(s),
        TermV::Text(b) => if valid_utf8(b) {
            ValueV::Str(decode_utf8(b))
        } else {
            ValueV::Null
        },
        TermV::Truth(b) => ValueV::Bool(b),
        TermV::Int(i) => ValueV::Int(i),
        TermV::FloatBits(f) => ValueV::FloatBits(f),
        TermV::List(items) => ValueV::Array(convert_list(items)),
        TermV::Mapping(entries) => ValueV::Dict(build_dict(entry_pairs(entries))),
        TermV::Null => ValueV::Null,
        TermV::Other => ValueV::Null,
    }
}

/// Where in a dict the first entry with the given key stands, and that
/// earlier entries miss it.
proof fn lemma_dict_find(d: Seq<(Seq<char>, ValueV)>, k: Seq<char>)
    ensures
        dict_find(d, k) == -1 <==> forall|j: int| 0 <= j < d.len() ==> d[j].0 != k,
        dict_find(d, k) != -1 ==> 0 <= dict_find(d, k) < d.len() && d[dict_find(d, k)].0 == k
            && forall|j: int| 0 <= j < dict_find(d, k) ==> d[j].0 != k,
    decreases d.len(),
{
    if d.len() != 0 && d[0].0 != k {
        lemma_dict_find(d.drop_first(), k);
        assert(forall|j: int| 1 <= j < d.len() ==> d.drop_first()[j - 1] == d[j]);
        assert(forall|j: int| 0 <= j < d.drop_first().len() ==> d.drop_first()[j] == d[j + 1]);
    }
}

/// The string a key term reduces to, if it is string-like.
pub fn string_key(t: &HostTerm) -> (r: Option<String>)
    ensures
        r matches Some(s) ==> string_key_of(t@) == Some(s@),
        r is None ==> string_key_of(t@) is None,
{
    match t {
        HostTerm::Symbol(s) => Some(s.clone()),
        HostTerm::Text(b) => crate::text::utf8_to_string(b.as_slice()),
        _ => None,
    }
}

/// Puts one pair into a dict held as a vector of entries.
#[verifier::loop_isolation(false)]
fn dict_insert(d: &mut Vec<DictEntry>, k: String, v: Value)
    ensures
        dict_entries_view(final(d)@) == dict_put(
            dict_entries_view(old(d)@),
            k@,
            value_view(v),
        ),
{
    let ghost dv = dict_entries_view(d@);
    let mut i: usize = 0;
    while i < d.len()
        invariant
            i <= d.len(),
            dv == dict_entries_view(d@),
            forall|j: int| 0 <= j < i ==> dv[j].0 != k@,
        decreases d.len() - i,
    {
        if d[i].key == k {
            proof {
                assert(dv[i as int].0 == k@);
                lemma_dict_find(dv, k@);
                assert(dict_find(dv, k@) != -1);
                assert(dict_find(dv, k@) == i);
            }
            d.remove(i);
            d.insert(i, DictEntry { key: k, value: v });
            proof {
                assert(dict_entries_view(d@) =~= dv.update(i as int, (k@, value_view(v))));
            }
            return ;
        }
        i = i + 1;
    }
    proof {
        lemma_dict_find(dv, k@);
        if dict_find(dv, k@) != -1 {
            assert(dv[dict_find(dv, k@)].0 == k@);
            assert(false);
        }
    }
    d.push(DictEntry { key: k, value: v });
    proof {
        assert(dict_entries_view(d@) =~= dv.push((k@, value_view(v))));
    }
}

/// Converts a host term into a value of the document's algebra.
///
/// Total over every term: unsupported shapes and binary text that is not
/// valid UTF-8 yield the null value; mapping entries under a key that is
/// not string-like are skipped.
#[verifier::loop_isolation(false)]
pub fn convert(t: &HostTerm) -> (v: Value)
    ensures
        v@ == convert_spec(t@),
    decreases *t,
{
    match t {
        HostTerm::Symbol(s) => Value::Str(s.clone()),
        HostTerm::Text(b) => {
            match crate::text::utf8_to_string(b.as_slice()) {
                Some(s) => Value::Str(s),
                None => Value::Null,
            }
        },
        HostTerm::Truth(b) => Value::Bool(*b),
        HostTerm::Int(i) => Value::Int(*i),
        HostTerm::FloatBits(f) => Value::FloatBits(*f),
        HostTerm::List(items) => {
            let ghost itemsv = (t@)->List_0;
            let mut out: Vec<Value> = Vec::new();
            let mut i: usize = 0;
            while i < items.len()
                invariant
                    i <= items.len(),
                    itemsv.len() == items@.len(),
                    forall|j: int| 0 <= j < items@.len() ==> itemsv[j] == term_view(items@[j]),
                    out@.len() == i,
                    forall|j: int| 0 <= j < i ==> value_view(out@[j]) == convert_spec(
                        itemsv[j],
                    ),
                decreases items.len() - i,
            {
                proof {
                    assert((*t)->List_0 == *items);
                    assert(decreases_to!(*t => (*t)->List_0));
                    assert(decreases_to!(*items => items@[i as int]));
                }
                let c = convert(&items[i]);
                out.push(c);
                i = i + 1;
            }
            let r = Value::Array(out);
            proof {
                assert((r@)->Array_0 =~= convert_list(itemsv));
            }
            r
        },
        HostTerm::Mapping(entries) => {
            let ghost entriesv = (t@)->Mapping_0;
            let ghost pairs = entry_pairs(entriesv);
            let mut out: Vec<DictEntry> = Vec::new();
            proof {
                assert(dict_entries_view(out@) =~= build_dict(pairs.take(0)));
            }
            let mut i: usize = 0;
            while i < entries.len()
                invariant
                    i <= entries.len(),
                    entriesv.len() == entries@.len(),
                    forall|j: int| 0 <= j < entries@.len() ==> entriesv[j] == (EntryV {
                        key: term_view(entries@[j].key),
                        value: term_view(entries@[j].value),
                    }),
                    pairs.len() == entriesv.len(),
                    forall|j: int| 0 <= j < pairs.len() ==> pairs[j] == entry_pair(
                        entriesv[j],
                    ),
                    dict_entries_view(out@) == build_dict(pairs.take(i as int)),
                decreases entries.len() - i,
            {
                let key = string_key(&entries[i].key);
                proof {
                    assert(pairs.take(i + 1).drop_last() =~= pairs.take(i as int));
                    assert(pairs.take(i + 1).last() == pairs[i as int]);
                }
                match key {
                    Some(k) => {
                        proof {
                            assert((*t)->Mapping_0 == *entries);
                            assert(decreases_to!(*t => (*t)->Mapping_0));
                            assert(decreases_to!(*entries => entries@[i as int]));
                            assert(decreases_to!(entries@[i as int] => entries@[
                                i as int
                            ].value));
                        }
                        let val = convert(&entries[i].value);
                        dict_insert(&mut out, k, val);
                    },
                    None => {
                        proof {
                            assert(pairs[i as int].0 is None);
                        }
                    },
                }
                i = i + 1;
            }
            let r = Value::Dict(out);
            proof {
                assert(pairs.take(entriesv.len() as int) =~= pairs);
                assert((r@)->Dict_0 == build_dict(pairs));
            }
            r
        },
        HostTerm::Null => Value::Null,
        HostTerm::Other => Value::Null,
    }
}

} // verus!
