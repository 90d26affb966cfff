//! A JSON value model: the library's own stand-in for `serde_json::Value`,
//! holding as plain values what the protocol logic reads. Objects keep their
//! entries in insertion order and never hold one key twice.

use vstd::prelude::*;
use crate::text::{decimal, decimal_string, push_str};
use crate::tools::byte_len;
use crate::named_map::{NamedMap, entry_keys, keys_unique};

verus! {

/// A JSON value. Numbers are held in their textual JSON form.
#[derive(Debug, PartialEq)]
pub enum JsonValue {
    Null,
    Bool(bool),
    Number(String),
    String(String),
    Array(Vec<JsonValue>),
    Object(JsonMap),
}

/// A JSON object: a map from keys to values that keeps insertion order.
pub type JsonMap = NamedMap<JsonValue>;

/// A JSON value as mathematical values: objects as their entries in order.
pub ghost enum JsonView {
    Null,
    Bool(bool),
    Number(Seq<char>),
    Str(Seq<char>),
    Array(Seq<JsonView>),
    Object(Seq<(Seq<char>, JsonView)>),
}

/// The mathematical value of a JSON value.
pub closed spec fn json_view(v: JsonValue) -> JsonView
    decreases v,
{
    match v {
        JsonValue::Null => JsonView::Null,
        JsonValue::Bool(b) => JsonView::Bool(b),
        JsonValue::Number(n) => JsonView::Number(n@),
        JsonValue::String(s) => JsonView::Str(s@),
        JsonValue::Array(items) => JsonView::Array(items_view(items@)),
        JsonValue::Object(m) => JsonView::Object(entries_view(m.entries@)),
    }
}

/// The mathematical values of a sequence of JSON values.
pub open spec fn items_view(items: Seq<JsonValue>) -> Seq<JsonView>
    decreases items,
{
    if items.len() == 0 {
        Seq::empty()
    } else {
        items_view(items.drop_last()).push(json_view(items.last()))
    }
}

/// The mathematical values of a sequence of object entries.
pub open spec fn entries_view(entries: Seq<(String, JsonValue)>) -> Seq<(Seq<char>, JsonView)>
    decreases entries,
{
    if entries.len() == 0 {
        Seq::empty()
    } else {
        entries_view(entries.drop_last()).push((entries.last().0@, json_view(entries.last().1)))
    }
}

/// What `json_view` is: each kind of value maps to its mathematical
/// counterpart; an object to the views of its entries, in order.
pub proof fn lemma_json_view_def(v: JsonValue)
    ensures
        json_view(v) == match v {
            JsonValue::Null => JsonView::Null,
            JsonValue::Bool(b) => JsonView::Bool(b),
            JsonValue::Number(n) => JsonView::Number(n@),
            JsonValue::String(s) => JsonView::Str(s@),
            JsonValue::Array(items) => JsonView::Array(items_view(items@)),
            JsonValue::Object(m) => JsonView::Object(entries_view(m.entry_seq())),
        },
{
    if let JsonValue::Object(m) = v {
        m.lemma_entry_seq();
    }
}

impl JsonValue {
    /// A deep copy of this value.
    pub fn deep_copy(&self) -> (r: JsonValue)
        ensures
            json_view(r) == json_view(*self),
        decreases self,
    {
        match self {
            JsonValue::Null => JsonValue::Null,
            JsonValue::Bool(b) => JsonValue::Bool(*b),
            JsonValue::Number(n) => JsonValue::Number(n.clone()),
            JsonValue::String(s) => JsonValue::String(s.clone()),
            JsonValue::Array(items) => {
                let mut out: Vec<JsonValue> = Vec::new();
                let mut i: usize = 0;
                while i < items.len()
                    invariant
                        i <= items@.len(),
                        *self == JsonValue::Array(*items),
                        items_view(out@) == items_view(items@.take(i as int)),
                    decreases items@.len() - i,
                {
                    proof {
                        assert(self->Array_0 == *items);
                        assert(decreases_to!(*self => self->Array_0));
                        assert(decreases_to!(*items => items@));
                        assert(decreases_to!(items@ => items@[i as int]));
                    }
                    let c = items[i].deep_copy();
                    let ghost before = out@;
                    out.push(c);
                    proof {
                        assert(out@.drop_last() =~= before);
                        assert(items@.take(i + 1).drop_last() =~= items@.take(i as int));
                        assert(items@.take(i + 1).last() == items@[i as int]);
                    }
                    i = i + 1;
                }
                assert(items@.take(items@.len() as int) =~= items@);
                JsonValue::Array(out)
            },
            JsonValue::Object(m) => {
                let c = m.deep_copy();
                proof {
                    m.lemma_entry_seq();
                    c.lemma_entry_seq();
                }
                JsonValue::Object(c)
            },
        }
    }
}

impl Clone for JsonValue {
    fn clone(&self) -> (r: Self)
        ensures
            json_view(r) == json_view(*self),
    {
        self.deep_copy()
    }
}

impl Clone for NamedMap<JsonValue> {
    fn clone(&self) -> (r: Self)
        ensures
            r.keys() == self.keys(),
            entries_view(r.entry_seq()) == entries_view(self.entry_seq()),
    {
        self.deep_copy()
    }
}

impl NamedMap<JsonValue> {
    /// A deep copy of this object, with the same entries in the same order.
    pub fn deep_copy(&self) -> (r: JsonMap)
        ensures
            r.keys() == self.keys(),
            entries_view(r.entry_seq()) == entries_view(self.entry_seq()),
        decreases self,
    {
        proof {
            use_type_invariant(self);
            self.lemma_entry_seq();
        }
        let mut out: Vec<(String, JsonValue)> = Vec::new();
        let mut i: usize = 0;
        while i < self.entries.len()
            invariant
                i <= self.entries@.len(),
                keys_unique(self.entries@),
                out@.len() == i,
                forall|j: int| 0 <= j < i ==> out@[j].0 == self.entries@[j].0,
                entries_view(out@) == entries_view(self.entries@.take(i as int)),
            decreases self.entries@.len() - i,
        {
            proof {
                assert(decreases_to!(self => self.entries));
                assert(decreases_to!(self.entries => self.entries@[i as int]));
                assert(decreases_to!(self.entries@[i as int] => self.entries@[i as int].1));
            }
            let v = self.entries[i].1.deep_copy();
            let k = self.entries[i].0.clone();
            let ghost before = out@;
            out.push((k, v));
            proof {
                assert(out@.drop_last() =~= before);
                assert(self.entries@.take(i + 1).drop_last() =~= self.entries@.take(i as int));
                assert(self.entries@.take(i + 1).last() == self.entries@[i as int]);
            }
            i = i + 1;
        }
        assert(self.entries@.take(self.entries@.len() as int) =~= self.entries@);
        assert(entry_keys(out@) =~= entry_keys(self.entries@));
        let r = NamedMap { entries: out };
        proof {
            r.lemma_entry_seq();
        }
        r
    }
}

/// Size limits that a JSON value is held to.
#[derive(Debug, Clone, Copy, PartialEq, Eq)]
pub struct JsonLimits {
    /// The longest string allowed, in bytes.
    pub max_string_length: usize,
    /// The longest array allowed.
    pub max_array_length: usize,
    /// The deepest nesting allowed; the value itself stands at depth 0.
    pub max_object_depth: usize,
}

/// A breach of the limits, at a path such as `params.items[2].name`.
#[derive(Debug, PartialEq, Eq)]
pub enum LimitBreach {
    /// A value stands deeper than allowed.
    TooDeep { path: String },
    /// A string is longer than allowed; `length` is its length in bytes.
    StringTooLong { path: String, length: usize },
    /// An array is longer than allowed; `length` is its number of items.
    ArrayTooLong { path: String, length: usize },
}

/// The path of entry `key` of the object at `path`.
pub open spec fn key_path(path: Seq<char>, key: Seq<char>) -> Seq<char> {
    path + "."@ + key
}

/// The path of item `i` of the array at `path`.
pub open spec fn index_path(path: Seq<char>, i: nat) -> Seq<char> {
    path + "["@ + decimal(i) + "]"@
}

/// The breaches of `lim` in `v`, which stands at `depth` and `path`, in the
/// order of a depth-first walk; a value that stands too deep is reported and
/// not looked into.
pub closed spec fn breaches(v: JsonValue, lim: JsonLimits, depth: nat, path: Seq<char>) -> Seq<
    Breach,
>
    decreases v,
{
    if depth > lim.max_object_depth {
        seq![Breach::TooDeep(path)]
    } else {
        match v {
            JsonValue::String(s) => if byte_len(s@) > lim.max_string_length {
                seq![Breach::StringTooLong(path, byte_len(s@))]
            } else {
                Seq::empty()
            },
            JsonValue::Array(items) => {
                let own = if items@.len() > lim.max_array_length {
                    seq![Breach::ArrayTooLong(path, items@.len())]
                } else {
                    Seq::empty()
                };
                own + item_breaches(items@, lim, depth + 1, path)
            },
            JsonValue::Object(m) => entry_breaches(m.entries@, lim, depth + 1, path),
            _ => Seq::empty(),
        }
    }
}

/// The breaches in the items of an array at `path`, whose items stand at `depth`.
pub open spec fn item_breaches(
    items: Seq<JsonValue>,
    lim: JsonLimits,
    depth: nat,
    path: Seq<char>,
) -> Seq<Breach>
    decreases items,
{
    if items.len() == 0 {
        Seq::empty()
    } else {
        item_breaches(items.drop_last(), lim, depth, path) + breaches(
            items.last(),
            lim,
            depth,
            index_path(path, (items.len() - 1) as nat),
        )
    }
}

/// The breaches in the entries of an object at `path`, whose values stand at `depth`.
pub open spec fn entry_breaches(
    entries: Seq<(String, JsonValue)>,
    lim: JsonLimits,
    depth: nat,
    path: Seq<char>,
) -> Seq<Breach>
    decreases entries,
{
    if entries.len() == 0 {
        Seq::empty()
    } else {
        entry_breaches(entries.drop_last(), lim, depth, path) + breaches(
            entries.last().1,
            lim,
            depth,
            key_path(path, entries.last().0@),
        )
    }
}

/// What `breaches` is: a value that stands too deep is reported alone; a
/// string longer than allowed is reported with its length in bytes; an
/// array longer than allowed is reported, then its items (one level deeper);
/// an object's entries are looked into one level deeper, in order.
pub proof fn lemma_breaches_def(v: JsonValue, lim: JsonLimits, depth: nat, path: Seq<char>)
    ensures
        breaches(v, lim, depth, path) == (if depth > lim.max_object_depth {
            seq![Breach::TooDeep(path)]
        } else {
            match v {
                JsonValue::String(s) => if byte_len(s@) > lim.max_string_length {
                    seq![Breach::StringTooLong(path, byte_len(s@))]
                } else {
                    Seq::empty()
                },
                JsonValue::Array(items) => (if items@.len() > lim.max_array_length {
                    seq![Breach::ArrayTooLong(path, items@.len())]
                } else {
                    Seq::empty()
                }) + item_breaches(items@, lim, depth + 1, path),
                JsonValue::Object(m) => entry_breaches(m.entry_seq(), lim, depth + 1, path),
                _ => Seq::empty(),
            }
        }),
{
    if let JsonValue::Object(m) = v {
        m.lemma_entry_seq();
    }
}

/// The mathematical values of a sequence of breaches.
pub open spec fn breach_views(s: Seq<LimitBreach>) -> Seq<Breach> {
    s.map_values(|b: LimitBreach| b@)
}

fn index_path_string(path: &str, i: usize) -> (p: String)
    ensures
        p@ == index_path(path@, i as nat),
{
    let mut p = path.to_string();
    push_str(&mut p, "[");
    push_str(&mut p, decimal_string(i).as_str());
    push_str(&mut p, "]");
    p
}

fn key_path_string(path: &str, key: &str) -> (p: String)
    ensures
        p@ == key_path(path@, key@),
{
    let mut p = path.to_string();
    push_str(&mut p, ".");
    push_str(&mut p, key);
    p
}

/// Appends to `out` the breaches of `lim` in `v`, which stands at `depth`
/// (within the limit) and `path`.
pub fn find_breaches(
    v: &JsonValue,
    lim: &JsonLimits,
    depth: usize,
    path: &str,
    out: &mut Vec<LimitBreach>,
)
    requires
        depth <= lim.max_object_depth,
    ensures
        breach_views(final(out)@) == breach_views(old(out)@) + breaches(*v, *lim, depth as nat, path@),
    decreases v,
{
    let ghost start = breach_views(out@);
    match v {
        JsonValue::String(s) => {
            let n = s.as_str().len();
            if n > lim.max_string_length {
                out.push(LimitBreach::StringTooLong { path: path.to_string(), length: n });
                assert(breach_views(out@) =~= start + breaches(*v, *lim, depth as nat, path@));
            } else {
                assert(breach_views(out@) =~= start + breaches(*v, *lim, depth as nat, path@));
            }
        },
        JsonValue::Array(items) => {
            if items.len() > lim.max_array_length {
                out.push(LimitBreach::ArrayTooLong { path: path.to_string(), length: items.len() });
            }
            let ghost own = breach_views(out@).subrange(start.len() as int, breach_views(out@).len() as int);
            assert(breach_views(out@) =~= start + own);
            assert(item_breaches(items@.take(0), *lim, (depth + 1) as nat, path@) =~= Seq::<Breach>::empty());
            let mut i: usize = 0;
            while i < items.len()
                invariant
                    i <= items@.len(),
                    *v == JsonValue::Array(*items),
                    depth <= lim.max_object_depth,
                    breach_views(out@) == start + own + item_breaches(
                        items@.take(i as int),
                        *lim,
                        (depth + 1) as nat,
                        path@,
                    ),
                decreases items@.len() - i,
            {
                let ghost before = breach_views(out@);
                let p = index_path_string(path, i);
                if depth == lim.max_object_depth {
                    out.push(LimitBreach::TooDeep { path: p });
                    assert(breaches(items@[i as int], *lim, (depth + 1) as nat, p@) =~= seq![Breach::TooDeep(p@)]);
                } else {
                    proof {
                        assert(v->Array_0 == *items);
                        assert(decreases_to!(*v => v->Array_0));
                        assert(decreases_to!(*items => items@));
                        assert(decreases_to!(items@ => items@[i as int]));
                    }
                    find_breaches(&items[i], lim, depth + 1, p.as_str(), out);
                }
                proof {
                    let t = items@.take(i + 1);
                    assert(t.drop_last() =~= items@.take(i as int));
                    assert(t.last() == items@[i as int]);
                    assert(breach_views(out@) =~= before + breaches(items@[i as int], *lim, (depth + 1) as nat, p@));
                }
                i = i + 1;
            }
            assert(items@.take(items@.len() as int) =~= items@);
        },
        JsonValue::Object(m) => {
            proof {
                use_type_invariant(m);
            }
            let entries = &m.entries;
            assert(entry_breaches(entries@.take(0), *lim, (depth + 1) as nat, path@) =~= Seq::<Breach>::empty());
            let mut i: usize = 0;
            while i < entries.len()
                invariant
                    i <= entries@.len(),
                    *v == JsonValue::Object(*m),
                    *entries == m.entries,
                    depth <= lim.max_object_depth,
                    breach_views(out@) == start + entry_breaches(
                        entries@.take(i as int),
                        *lim,
                        (depth + 1) as nat,
                        path@,
                    ),
                decreases entries@.len() - i,
            {
                let ghost before = breach_views(out@);
                let p = key_path_string(path, entries[i].0.as_str());
                if depth == lim.max_object_depth {
                    out.push(LimitBreach::TooDeep { path: p });
                    assert(breaches(entries@[i as int].1, *lim, (depth + 1) as nat, p@) =~= seq![Breach::TooDeep(p@)]);
                } else {
                    proof {
                        assert(v->Object_0 == *m);
                        assert(decreases_to!(*v => v->Object_0));
                        assert(decreases_to!(*m => m.entries));
                        assert(decreases_to!(m.entries => m.entries@));
                        assert(decreases_to!(m.entries@ => m.entries@[i as int]));
                        assert(decreases_to!(m.entries@[i as int] => m.entries@[i as int].1));
                    }
                    find_breaches(&entries[i].1, lim, depth + 1, p.as_str(), out);
                }
                proof {
                    let t = entries@.take(i + 1);
                    assert(t.drop_last() =~= entries@.take(i as int));
                    assert(t.last() == entries@[i as int]);
                    assert(breach_views(out@) =~= before + breaches(entries@[i as int].1, *lim, (depth + 1) as nat, p@));
                }
                i = i + 1;
            }
            assert(entries@.take(entries@.len() as int) =~= entries@);
        },
        _ => {
            assert(breach_views(out@) =~= start + breaches(*v, *lim, depth as nat, path@));
        },
    }
}

/// A breach as a mathematical value.
pub ghost enum Breach {
    TooDeep(Seq<char>),
    StringTooLong(Seq<char>, nat),
    ArrayTooLong(Seq<char>, nat),
}

impl View for LimitBreach {
    type V = Breach;

    open spec fn view(&self) -> Breach {
        match self {
            LimitBreach::TooDeep { path } => Breach::TooDeep(path@),
            LimitBreach::StringTooLong { path, length } => Breach::StringTooLong(path@, *length as nat),
            LimitBreach::ArrayTooLong { path, length } => Breach::ArrayTooLong(path@, *length as nat),
        }
    }
}

} // verus!
