//! The ordered maps of the `indexmap` crate that the converted documents hold,
//! with what each one holds named as its entries in order.
use crate::outline;
use crate::schema::{OpenAPIModel, OpenAPIPath, OpenAPIResponse};
use indexmap::IndexMap;
use vstd::prelude::*;

verus! {

/// The ordered map of the `indexmap` crate, carried through opaquely; what it
/// holds is stated by the names of its contents below.
#[verifier::external_type_specification]
#[verifier::external_body]
#[verifier::reject_recursive_types(K)]
#[verifier::reject_recursive_types(V)]
#[verifier::reject_recursive_types(S)]
pub struct ExIndexMap<K, V, S>(IndexMap<K, V, S>);

/// Index of the first entry whose key is `k`, if any.
pub open spec fn key_position<V>(entries: Seq<(Seq<char>, V)>, k: Seq<char>) -> Option<int>
    decreases entries.len(),
{
    if entries.len() == 0 {
        None
    } else {
        match key_position(entries.drop_last(), k) {
            Some(i) => Some(i),
            None => if entries.last().0 == k {
                Some(entries.len() - 1)
            } else {
                None
            },
        }
    }
}

/// Entries after inserting `(k, v)` into an ordered map: an existing key keeps
/// its place and takes the new value, a new key goes last.
pub open spec fn insert_entry<V>(entries: Seq<(Seq<char>, V)>, k: Seq<char>, v: V) -> Seq<
    (Seq<char>, V),
> {
    match key_position(entries, k) {
        Some(i) => entries.update(i, (k, v)),
        None => entries.push((k, v)),
    }
}

/// A found key is at a valid place, and is the first with that key.
pub proof fn lemma_key_position<V>(entries: Seq<(Seq<char>, V)>, k: Seq<char>)
    ensures
        key_position(entries, k) matches Some(i) ==> 0 <= i < entries.len() && entries[i].0 == k
            && forall|j: int| 0 <= j < i ==> entries[j].0 != k,
        key_position(entries, k) is None ==> forall|j: int|
            0 <= j < entries.len() ==> entries[j].0 != k,
    decreases entries.len(),
{
    if entries.len() > 0 {
        let init = entries.drop_last();
        lemma_key_position(init, k);
        assert forall|j: int| 0 <= j < init.len() implies #[trigger] entries[j] == init[j] by {}
    }
}

/// The value under `k`, if any.
pub open spec fn lookup<V>(entries: Seq<(Seq<char>, V)>, k: Seq<char>) -> Option<V> {
    match key_position(entries, k) {
        Some(i) => Some(entries[i].1),
        None => None,
    }
}

/// After putting `v` under `k`, looking `k` up finds `v`, and looking up any
/// other key finds what it found before.
pub proof fn law_lookup_after_insert<V>(entries: Seq<(Seq<char>, V)>, k: Seq<char>, v: V, other: Seq<char>)
    ensures
        lookup(insert_entry(entries, k, v), k) == Some(v),
        other != k ==> lookup(insert_entry(entries, k, v), other) == lookup(entries, other),
{
    let after = insert_entry(entries, k, v);
    lemma_key_position(entries, k);
    lemma_key_position(entries, other);
    lemma_key_position(after, k);
    lemma_key_position(after, other);
    match key_position(entries, k) {
        Some(i) => {
            assert(after[i].0 == k);
            if other != k {
                match key_position(entries, other) {
                    Some(j) => {
                        assert(after[j] == entries[j]);
                        assert(key_position(after, other) == Some(j)) by {
                            lemma_key_position_unique(after, other, j);
                        }
                    },
                    None => {
                        assert forall|j: int| 0 <= j < after.len() implies after[j].0 != other by {
                            if j != i {
                                assert(after[j] == entries[j]);
                            }
                        }
                    },
                }
            }
            lemma_key_position_unique(after, k, i);
        },
        None => {
            assert(after[entries.len() as int].0 == k);
            lemma_key_position_unique(after, k, entries.len() as int);
            if other != k {
                match key_position(entries, other) {
                    Some(j) => {
                        assert(after[j] == entries[j]);
                        lemma_key_position_unique(after, other, j);
                    },
                    None => {
                        assert forall|j: int| 0 <= j < after.len() implies after[j].0 != other by {
                            if j < entries.len() {
                                assert(after[j] == entries[j]);
                            }
                        }
                    },
                }
            }
        },
    }
}

/// The first entry with key `k` is where `key_position` finds `k`.
pub proof fn lemma_key_position_unique<V>(entries: Seq<(Seq<char>, V)>, k: Seq<char>, i: int)
    requires
        0 <= i < entries.len(),
        entries[i].0 == k,
        forall|j: int| 0 <= j < i ==> entries[j].0 != k,
    ensures
        key_position(entries, k) == Some(i),
    decreases entries.len(),
{
    lemma_key_position(entries, k);
    if i < entries.len() - 1 {
        let init = entries.drop_last();
        assert forall|j: int| 0 <= j <= i implies #[trigger] init[j] == entries[j] by {}
        lemma_key_position_unique(init, k, i);
    }
}

/// Looking a key up in entries: the last entry decides only when no earlier
/// entry holds the key.
pub proof fn lemma_lookup_drop_last<V>(entries: Seq<(Seq<char>, V)>, k: Seq<char>)
    requires
        entries.len() > 0,
    ensures
        entries.last().0 != k ==> lookup(entries, k) == lookup(entries.drop_last(), k),
        lookup(entries.drop_last(), k) is None ==> lookup(entries, k) == if entries.last().0 == k {
            Some(entries.last().1)
        } else {
            None
        },
        lookup(entries.drop_last(), k) is Some ==> lookup(entries, k) == lookup(
            entries.drop_last(),
            k,
        ),
{
    lemma_key_position(entries.drop_last(), k);
    if let Some(i) = key_position(entries.drop_last(), k) {
        assert(entries[i] == entries.drop_last()[i]);
    }
}

/// Putting a key in keeps every entry in its place; only a new key adds one, last.
pub proof fn law_insert_keeps_places<V>(entries: Seq<(Seq<char>, V)>, k: Seq<char>, v: V)
    ensures
        forall|i: int| 0 <= i < entries.len() ==> (#[trigger] insert_entry(entries, k, v)[i]).0 == entries[i].0,
        insert_entry(entries, k, v).len() == entries.len() + if lookup(entries, k) is Some {
            0int
        } else {
            1int
        },
{
    lemma_key_position(entries, k);
}

/// The entries with each value replaced by its image under `f`.
pub open spec fn map_entry_values<A, B>(entries: Seq<(Seq<char>, A)>, f: spec_fn(A) -> B) -> Seq<
    (Seq<char>, B),
> {
    entries.map_values(|e: (Seq<char>, A)| (e.0, f(e.1)))
}

/// A key is found at the same place whatever the values are.
pub proof fn lemma_key_position_map<A, B>(
    entries: Seq<(Seq<char>, A)>,
    k: Seq<char>,
    f: spec_fn(A) -> B,
)
    ensures
        key_position(map_entry_values(entries, f), k) == key_position(entries, k),
    decreases entries.len(),
{
    if entries.len() > 0 {
        assert(map_entry_values(entries, f).drop_last() =~= map_entry_values(
            entries.drop_last(),
            f,
        ));
        lemma_key_position_map(entries.drop_last(), k, f);
    }
}

/// Inserting and then mapping the values is mapping and then inserting the image.
pub proof fn lemma_insert_entry_map<A, B>(
    entries: Seq<(Seq<char>, A)>,
    k: Seq<char>,
    v: A,
    f: spec_fn(A) -> B,
)
    ensures
        map_entry_values(insert_entry(entries, k, v), f) == insert_entry(
            map_entry_values(entries, f),
            k,
            f(v),
        ),
{
    lemma_key_position_map(entries, k, f);
    lemma_key_position(entries, k);
    assert(map_entry_values(insert_entry(entries, k, v), f) =~= insert_entry(
        map_entry_values(entries, f),
        k,
        f(v),
    ));
}

/// What an `IndexMap<String, String>` holds, in order, keys and values by view.
pub uninterp spec fn text_entries(m: IndexMap<String, String>) -> Seq<(Seq<char>, Seq<char>)>;

/// What an `IndexMap<String, OpenAPIResponse>` holds, in order, keys by view.
pub uninterp spec fn response_entries(m: IndexMap<String, OpenAPIResponse>) -> Seq<
    (Seq<char>, OpenAPIResponse),
>;

/// What an `IndexMap<String, OpenAPIPath>` holds, in order, keys by view.
pub uninterp spec fn path_entries(m: IndexMap<String, OpenAPIPath>) -> Seq<
    (Seq<char>, OpenAPIPath),
>;

/// What an `IndexMap<String, OpenAPIModel>` holds, in order, keys by view.
pub uninterp spec fn model_entries(m: IndexMap<String, OpenAPIModel>) -> Seq<
    (Seq<char>, OpenAPIModel),
>;

/// What an `IndexMap<String, outline::OpenAPIPath>` holds, in order, keys by view.
pub uninterp spec fn outline_path_entries(m: IndexMap<String, outline::OpenAPIPath>) -> Seq<
    (Seq<char>, outline::OpenAPIPath),
>;

/// Calls `IndexMap::new`, which makes an empty map.
#[verifier::external_body]
pub(crate) fn new_text_map() -> (m: IndexMap<String, String>)
    ensures
        text_entries(m) == Seq::<(Seq<char>, Seq<char>)>::empty(),
{
    IndexMap::new()
}

/// Calls `IndexMap::insert`. Its documentation: an existing key keeps its
/// place and takes the new value; a new key is put last.
#[verifier::external_body]
pub(crate) fn insert_text(m: &mut IndexMap<String, String>, k: String, v: String)
    ensures
        text_entries(*final(m)) == insert_entry(text_entries(*old(m)), k@, v@),
{
    m.insert(k, v);
}

/// Calls `IndexMap::new`, which makes an empty map.
#[verifier::external_body]
pub(crate) fn new_response_map() -> (m: IndexMap<String, OpenAPIResponse>)
    ensures
        response_entries(m) == Seq::<(Seq<char>, OpenAPIResponse)>::empty(),
{
    IndexMap::new()
}

/// Calls `IndexMap::insert`. Its documentation: an existing key keeps its
/// place and takes the new value; a new key is put last.
#[verifier::external_body]
pub(crate) fn insert_response(m: &mut IndexMap<String, OpenAPIResponse>, k: String, v: OpenAPIResponse)
    ensures
        response_entries(*final(m)) == insert_entry(response_entries(*old(m)), k@, v),
{
    m.insert(k, v);
}

/// Calls `IndexMap::new`, which makes an empty map.
#[verifier::external_body]
pub(crate) fn new_path_map() -> (m: IndexMap<String, OpenAPIPath>)
    ensures
        path_entries(m) == Seq::<(Seq<char>, OpenAPIPath)>::empty(),
{
    IndexMap::new()
}

/// Calls `IndexMap::insert`. Its documentation: an existing key keeps its
/// place and takes the new value; a new key is put last.
#[verifier::external_body]
pub(crate) fn insert_path(m: &mut IndexMap<String, OpenAPIPath>, k: String, v: OpenAPIPath)
    ensures
        path_entries(*final(m)) == insert_entry(path_entries(*old(m)), k@, v),
{
    m.insert(k, v);
}

/// Calls `IndexMap::new`, which makes an empty map.
#[verifier::external_body]
pub(crate) fn new_model_map() -> (m: IndexMap<String, OpenAPIModel>)
    ensures
        model_entries(m) == Seq::<(Seq<char>, OpenAPIModel)>::empty(),
{
    IndexMap::new()
}

/// Calls `IndexMap::insert`. Its documentation: an existing key keeps its
/// place and takes the new value; a new key is put last.
#[verifier::external_body]
pub(crate) fn insert_model(m: &mut IndexMap<String, OpenAPIModel>, k: String, v: OpenAPIModel)
    ensures
        model_entries(*final(m)) == insert_entry(model_entries(*old(m)), k@, v),
{
    m.insert(k, v);
}

/// Calls `IndexMap::new`, which makes an empty map.
#[verifier::external_body]
pub(crate) fn new_outline_path_map() -> (m: IndexMap<String, outline::OpenAPIPath>)
    ensures
        outline_path_entries(m) == Seq::<(Seq<char>, outline::OpenAPIPath)>::empty(),
{
    IndexMap::new()
}

/// Calls `IndexMap::insert`. Its documentation: an existing key keeps its
/// place and takes the new value; a new key is put last.
#[verifier::external_body]
pub(crate) fn insert_outline_path(
    m: &mut IndexMap<String, outline::OpenAPIPath>,
    k: String,
    v: outline::OpenAPIPath,
)
    ensures
        outline_path_entries(*final(m)) == insert_entry(outline_path_entries(*old(m)), k@, v),
{
    m.insert(k, v);
}

} // verus!
